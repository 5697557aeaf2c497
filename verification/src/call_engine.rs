//! The call engine's stack arithmetic and execution-context layout: how big
//! the native stack starts, where its 16-byte aligned top is, how it grows,
//! and how a running stack is moved into a bigger one; and its decisions: how
//! a call starts, what each exit of compiled code asks of the engine, and
//! the engine's services to compiled code.

use vstd::prelude::*;

verus! {

/// The stack size past which the engine refuses to grow the stack.
pub const CALL_STACK_CEILING: usize = 50_000_000;

/// The smallest initial stack.
pub const DEFAULT_STACK_SIZE: usize = 10_240;

/// The state shared by native code and the engine while a function runs,
/// laid out as the compiled code reads it.
#[derive(Clone, Copy, Debug, PartialEq, Eq)]
pub struct ExecutionContext {
    pub exit_code: u32,
    pub caller_module_context_ptr: usize,
    pub original_frame_pointer: usize,
    pub original_stack_pointer: usize,
    pub go_return_address: usize,
    pub stack_bottom_ptr: usize,
    pub go_call_return_address: usize,
    pub stack_pointer_before_go_call: usize,
    pub stack_grow_required_size: usize,
    pub memory_grow_trampoline_address: usize,
    pub stack_grow_call_trampoline_address: usize,
    pub check_module_exit_code_trampoline_address: usize,
    pub saved_registers: [[u64; 2]; 64],
    pub go_function_call_callee_module_context_opaque: usize,
    pub table_grow_trampoline_address: usize,
    pub ref_func_trampoline_address: usize,
    pub memmove_address: usize,
    pub frame_pointer_before_go_call: usize,
    pub memory_wait32_trampoline_address: usize,
    pub memory_wait64_trampoline_address: usize,
    pub memory_notify_trampoline_address: usize,
    pub fuel: i64,
}

impl ExecutionContext {
    /// Every field zero.
    pub open spec fn is_zeroed(&self) -> bool {
        &&& self.exit_code == 0
        &&& self.caller_module_context_ptr == 0
        &&& self.original_frame_pointer == 0
        &&& self.original_stack_pointer == 0
        &&& self.go_return_address == 0
        &&& self.stack_bottom_ptr == 0
        &&& self.go_call_return_address == 0
        &&& self.stack_pointer_before_go_call == 0
        &&& self.stack_grow_required_size == 0
        &&& self.memory_grow_trampoline_address == 0
        &&& self.stack_grow_call_trampoline_address == 0
        &&& self.check_module_exit_code_trampoline_address == 0
        &&& forall|i: int, j: int| 0 <= i < 64 && 0 <= j < 2 ==> #[trigger] self.saved_registers@[i]@[j] == 0
        &&& self.go_function_call_callee_module_context_opaque == 0
        &&& self.table_grow_trampoline_address == 0
        &&& self.ref_func_trampoline_address == 0
        &&& self.memmove_address == 0
        &&& self.frame_pointer_before_go_call == 0
        &&& self.memory_wait32_trampoline_address == 0
        &&& self.memory_wait64_trampoline_address == 0
        &&& self.memory_notify_trampoline_address == 0
        &&& self.fuel == 0
    }
}

impl Default for ExecutionContext {
    fn default() -> (res: Self)
        ensures
            res.is_zeroed(),
    {
        let row: [u64; 2] = [0u64, 0u64];
        let saved_registers: [[u64; 2]; 64] = [row; 64];
        assert(row@ =~= seq![0u64, 0u64]);
        ExecutionContext {
            exit_code: 0,
            caller_module_context_ptr: 0,
            original_frame_pointer: 0,
            original_stack_pointer: 0,
            go_return_address: 0,
            stack_bottom_ptr: 0,
            go_call_return_address: 0,
            stack_pointer_before_go_call: 0,
            stack_grow_required_size: 0,
            memory_grow_trampoline_address: 0,
            stack_grow_call_trampoline_address: 0,
            check_module_exit_code_trampoline_address: 0,
            saved_registers,
            go_function_call_callee_module_context_opaque: 0,
            table_grow_trampoline_address: 0,
            ref_func_trampoline_address: 0,
            memmove_address: 0,
            frame_pointer_before_go_call: 0,
            memory_wait32_trampoline_address: 0,
            memory_wait64_trampoline_address: 0,
            memory_notify_trampoline_address: 0,
            fuel: 0,
        }
    }
}

/// The address of a slice's first byte. A slice's data pointer is never
/// null, and its bytes never wrap around the address space (std's safety
/// rules for slices); which address the allocator chose is left unsaid.
#[verifier::external_body]
fn slice_address(bytes: &[u8]) -> (addr: usize)
    ensures
        addr != 0,
        addr + bytes@.len() <= usize::MAX,
{
    bytes.as_ptr() as usize
}

/// The highest 16-byte aligned address within `len` bytes at `base`: the
/// address of the last byte rounded down to a multiple of 16; 0 for no bytes.
pub open spec fn spec_aligned_top(base: usize, len: usize) -> usize {
    if len == 0 {
        0
    } else {
        ((base + len - 1) - (base + len - 1) % 16) as usize
    }
}

/// The aligned stack top of `len` bytes at address `base`.
pub fn aligned_stack_top_at(base: usize, len: usize) -> (res: usize)
    requires
        base + len <= usize::MAX,
    ensures
        res == spec_aligned_top(base, len),
        res % 16 == 0,
{
    if len == 0 {
        return 0;
    }
    let last = base + (len - 1);
    assert(last & 15 == last % 16) by (bit_vector);
    last - (last & 15)
}

/// The 16-byte aligned top of a stack: the aligned address within its last
/// 16 bytes, or 0 for an empty stack. The stack's address is the one the
/// allocator gave it: the result is `spec_aligned_top` of some non-null
/// address at which the stack's bytes fit the address space.
pub fn aligned_stack_top(stack: &[u8]) -> (res: usize)
    ensures
        res % 16 == 0,
        stack@.len() == 0 ==> res == 0,
        stack@.len() > 0 ==> exists|base: usize|
            base != 0 && base + stack@.len() <= usize::MAX && res == #[trigger] spec_aligned_top(
                base,
                stack@.len() as usize,
            ),
        stack@.len() > 0 ==> res != 0 || stack@.len() < 16,
{
    if stack.len() == 0 {
        return 0;
    }
    let base = slice_address(stack);
    let res = aligned_stack_top_at(base, stack.len());
    assert(res == spec_aligned_top(base, stack@.len() as usize));
    res
}

/// The initial stack of a call: room for the parameter and result slots
/// twice over plus a frame, and no less than the default size.
pub open spec fn spec_required_initial_stack_size(size_of_param_result_slice: usize) -> int {
    let required = size_of_param_result_slice * 8 * 2 + 32 + 16;
    if required > DEFAULT_STACK_SIZE {
        required
    } else {
        DEFAULT_STACK_SIZE as int
    }
}

pub fn required_initial_stack_size(size_of_param_result_slice: usize) -> (res: usize)
    requires
        size_of_param_result_slice * 16 + 48 <= usize::MAX,
    ensures
        res == spec_required_initial_stack_size(size_of_param_result_slice),
{
    let required = size_of_param_result_slice * 8 * 2 + 32 + 16;
    if required > DEFAULT_STACK_SIZE {
        required
    } else {
        DEFAULT_STACK_SIZE
    }
}

/// The length a stack grows to: twice the current length plus the size the
/// compiled code asked for plus 16; `None` once the stack is past the
/// ceiling, which is a stack overflow.
pub fn grown_stack_len(current_len: usize, stack_grow_required_size: usize) -> (res: Option<usize>)
    requires
        current_len > CALL_STACK_CEILING || current_len * 2 + stack_grow_required_size + 16
            <= usize::MAX,
    ensures
        current_len > CALL_STACK_CEILING ==> res is None,
        current_len <= CALL_STACK_CEILING ==> res == Some(
            (current_len * 2 + stack_grow_required_size + 16) as usize,
        ),
{
    if current_len > CALL_STACK_CEILING {
        None
    } else {
        Some(current_len * 2 + stack_grow_required_size + 16)
    }
}

pub open spec fn sat_sub(a: usize, b: usize) -> usize {
    if a >= b {
        (a - b) as usize
    } else {
        0
    }
}

pub open spec fn min_usize(a: usize, b: usize) -> usize {
    if a <= b {
        a
    } else {
        b
    }
}

/// Where a stack moved into `new_len` bytes at `new_bottom` puts things: the
/// new stack pointer, frame pointer and top keep their distances from the
/// top, and the live window (from the old stack pointer up, bounded by the
/// old stack) is copied to the same distance from the new top.
pub struct StackMove {
    pub new_sp: usize,
    pub new_fp: usize,
    pub new_top: usize,
    pub copy_len: usize,
    pub source_start: usize,
    pub target_start: usize,
}

pub open spec fn spec_stack_move(
    old_bottom: usize,
    stack_top: usize,
    old_sp: usize,
    old_fp: usize,
    new_bottom: usize,
    new_len: usize,
) -> StackMove {
    let rel_sp = sat_sub(stack_top, old_sp);
    let rel_fp = sat_sub(stack_top, old_fp);
    let new_top = spec_aligned_top(new_bottom, new_len);
    let new_sp = sat_sub(new_top, rel_sp);
    StackMove {
        new_sp,
        new_fp: sat_sub(new_top, rel_fp),
        new_top,
        copy_len: min_usize(rel_sp, sat_sub(stack_top, old_bottom)),
        source_start: sat_sub(old_sp, old_bottom),
        target_start: sat_sub(new_sp, new_bottom),
    }
}

/// Whether the live window fits in both stacks.
pub open spec fn stack_move_fits(mv: StackMove, old_len: nat, new_len: nat) -> bool {
    mv.copy_len > 0 ==> mv.source_start + mv.copy_len <= old_len && mv.target_start + mv.copy_len
        <= new_len
}

/// Moves a running stack into `new_stack`, a zeroed stack at address
/// `new_bottom`: gives the new stack pointer, frame pointer and top, and the
/// new stack with the live window copied in.
pub fn clone_stack_into(
    old_stack: &[u8],
    old_bottom: usize,
    stack_top: usize,
    old_sp: usize,
    old_fp: usize,
    new_stack: Vec<u8>,
    new_bottom: usize,
) -> (res: (usize, usize, usize, Vec<u8>))
    requires
        new_bottom + new_stack@.len() <= usize::MAX,
        stack_move_fits(
            spec_stack_move(old_bottom, stack_top, old_sp, old_fp, new_bottom, new_stack@.len() as usize),
            old_stack@.len(),
            new_stack@.len(),
        ),
    ensures
        ({
            let mv = spec_stack_move(
                old_bottom,
                stack_top,
                old_sp,
                old_fp,
                new_bottom,
                new_stack@.len() as usize,
            );
            &&& res.0 == mv.new_sp
            &&& res.1 == mv.new_fp
            &&& res.2 == mv.new_top
            &&& res.3@ == if mv.copy_len > 0 {
                new_stack@.take(mv.target_start as int) + old_stack@.subrange(
                    mv.source_start as int,
                    mv.source_start + mv.copy_len,
                ) + new_stack@.skip(mv.target_start + mv.copy_len)
            } else {
                new_stack@
            }
        }),
{
    let new_len = new_stack.len();
    let rel_sp = if stack_top >= old_sp {
        stack_top - old_sp
    } else {
        0
    };
    let rel_fp = if stack_top >= old_fp {
        stack_top - old_fp
    } else {
        0
    };
    let new_top = aligned_stack_top_at(new_bottom, new_len);
    let new_sp = if new_top >= rel_sp {
        new_top - rel_sp
    } else {
        0
    };
    let new_fp = if new_top >= rel_fp {
        new_top - rel_fp
    } else {
        0
    };
    let live = if stack_top >= old_bottom {
        stack_top - old_bottom
    } else {
        0
    };
    let copy_len = if rel_sp <= live {
        rel_sp
    } else {
        live
    };
    let mut out = new_stack;
    if copy_len > 0 {
        let start = if old_sp >= old_bottom {
            old_sp - old_bottom
        } else {
            0
        };
        let target = if new_sp >= new_bottom {
            new_sp - new_bottom
        } else {
            0
        };
        let ghost before = out@;
        let old_len = old_stack.len();
        let mut k: usize = 0;
        while k < copy_len
            invariant
                old_len == old_stack@.len(),
                new_len == before.len(),
                start + copy_len <= old_stack@.len(),
                target + copy_len <= before.len(),
                out@.len() == before.len(),
                k <= copy_len,
                out@ == before.take(target as int) + old_stack@.subrange(start as int, start + k)
                    + before.skip(target + k),
            decreases copy_len - k,
        {
            out.set(target + k, old_stack[start + k]);
            assert(out@ =~= before.take(target as int) + old_stack@.subrange(
                start as int,
                start + k + 1,
            ) + before.skip(target + k + 1));
            k = k + 1;
        }
    }
    (new_sp, new_fp, new_top, out)
}

/// The bytes of the live window of a stack: from the stack pointer saved
/// before the last host call up to the stack top, within the stack.
pub open spec fn live_window_len(old_bottom: usize, stack_top: usize, old_sp: usize) -> usize {
    min_usize(sat_sub(stack_top, old_sp), sat_sub(stack_top, old_bottom))
}

/// Whether the live window lies within the `old_len` bytes of the stack.
pub open spec fn live_window_fits(old_bottom: usize, stack_top: usize, old_sp: usize, old_len: nat) -> bool {
    live_window_len(old_bottom, stack_top, old_sp) > 0 ==> sat_sub(old_sp, old_bottom) + live_window_len(
        old_bottom,
        stack_top,
        old_sp,
    ) <= old_len
}

/// What moving a stack into `new_len` zeroed bytes at `new_bottom` gives: the
/// new stack pointer, frame pointer and top, and the new stack's bytes.
pub open spec fn moved_stack(
    old: Seq<u8>,
    old_bottom: usize,
    stack_top: usize,
    old_sp: usize,
    old_fp: usize,
    new_bottom: usize,
    new_len: usize,
) -> (usize, usize, usize, Seq<u8>) {
    let mv = spec_stack_move(old_bottom, stack_top, old_sp, old_fp, new_bottom, new_len);
    let zeros = Seq::new(new_len as nat, |i: int| 0u8);
    let bytes = if mv.copy_len > 0 {
        zeros.take(mv.target_start as int) + old.subrange(mv.source_start as int, mv.source_start + mv.copy_len)
            + zeros.skip(mv.target_start + mv.copy_len)
    } else {
        zeros
    };
    (mv.new_sp, mv.new_fp, mv.new_top, bytes)
}

/// A live window that lies within the old stack and is no longer than the
/// new one also lies within the new stack, wherever that stack was put.
proof fn lemma_stack_move_fits(
    old_bottom: usize,
    stack_top: usize,
    old_sp: usize,
    old_fp: usize,
    new_bottom: usize,
    old_len: nat,
    new_len: usize,
)
    requires
        live_window_fits(old_bottom, stack_top, old_sp, old_len),
        live_window_len(old_bottom, stack_top, old_sp) <= new_len,
        new_bottom != 0,
        new_bottom + new_len <= usize::MAX,
    ensures
        stack_move_fits(
            spec_stack_move(old_bottom, stack_top, old_sp, old_fp, new_bottom, new_len),
            old_len,
            new_len as nat,
        ),
{
    let mv = spec_stack_move(old_bottom, stack_top, old_sp, old_fp, new_bottom, new_len);
    if new_len > 0 {
        let last = new_bottom + new_len - 1;
        assert(mv.new_top <= last);
    }
}

/// Moving a stack keeps its live window: when the stack pointer lies in the
/// old stack below its top, and the new stack has room for the whole old
/// one and a 16-byte alignment, the new stack pointer lies as far below the
/// new top as the old one lay below the old top, and the bytes from the
/// stack pointer up to the top are the same.
pub proof fn lemma_moved_stack_keeps_live_window(
    old: Seq<u8>,
    old_bottom: usize,
    stack_top: usize,
    old_sp: usize,
    old_fp: usize,
    new_bottom: usize,
    new_len: usize,
)
    requires
        old_bottom <= old_sp <= stack_top,
        stack_top < old_bottom + old.len(),
        new_bottom != 0,
        new_bottom + new_len <= usize::MAX,
        new_len >= old.len() + 16,
    ensures
        ({
            let m = moved_stack(old, old_bottom, stack_top, old_sp, old_fp, new_bottom, new_len);
            &&& new_bottom <= m.0 <= m.2
            &&& m.2 - m.0 == stack_top - old_sp
            &&& m.3.len() == new_len
            &&& forall|k: int|
                0 <= k < stack_top - old_sp ==> #[trigger] m.3[m.0 - new_bottom + k] == old[old_sp - old_bottom + k]
        }),
{
    let mv = spec_stack_move(old_bottom, stack_top, old_sp, old_fp, new_bottom, new_len);
    let last = new_bottom + new_len - 1;
    assert(mv.new_top <= last);
    assert(mv.new_top >= last - 15);
    let m = moved_stack(old, old_bottom, stack_top, old_sp, old_fp, new_bottom, new_len);
    let zeros = Seq::new(new_len as nat, |i: int| 0u8);
    if mv.copy_len > 0 {
        assert forall|k: int| 0 <= k < stack_top - old_sp implies #[trigger] m.3[m.0 - new_bottom + k] == old[old_sp
            - old_bottom + k] by {
            assert(m.3 == zeros.take(mv.target_start as int) + old.subrange(
                mv.source_start as int,
                mv.source_start + mv.copy_len,
            ) + zeros.skip(mv.target_start + mv.copy_len));
        }
    }
}

/// What moving a stack into `new_len` zeroed bytes gives, for the old and
/// new stacks' addresses: `moved_stack` when the live window lies within the
/// old stack and fits the new one; otherwise (where the window runs past the
/// old stack's bytes) the same stack pointer, frame pointer and top over a
/// zeroed stack, with nothing copied.
pub open spec fn cloned_stack(
    old: Seq<u8>,
    old_bottom: usize,
    stack_top: usize,
    old_sp: usize,
    old_fp: usize,
    new_bottom: usize,
    new_len: usize,
) -> (usize, usize, usize, Seq<u8>) {
    if live_window_fits(old_bottom, stack_top, old_sp, old.len()) && live_window_len(old_bottom, stack_top, old_sp)
        <= new_len {
        moved_stack(old, old_bottom, stack_top, old_sp, old_fp, new_bottom, new_len)
    } else {
        let mv = spec_stack_move(old_bottom, stack_top, old_sp, old_fp, new_bottom, new_len);
        (mv.new_sp, mv.new_fp, mv.new_top, Seq::new(new_len as nat, |i: int| 0u8))
    }
}

fn window_copyable(old_bottom: usize, stack_top: usize, old_sp: usize, old_len: usize, new_len: usize) -> (res:
    bool)
    ensures
        res == (live_window_fits(old_bottom, stack_top, old_sp, old_len as nat) && live_window_len(
            old_bottom,
            stack_top,
            old_sp,
        ) <= new_len),
{
    let rel_sp = if stack_top >= old_sp {
        stack_top - old_sp
    } else {
        0
    };
    let live = if stack_top >= old_bottom {
        stack_top - old_bottom
    } else {
        0
    };
    let copy_len = if rel_sp <= live {
        rel_sp
    } else {
        live
    };
    let start = if old_sp >= old_bottom {
        old_sp - old_bottom
    } else {
        0
    };
    copy_len <= new_len && (copy_len == 0 || (copy_len <= old_len && start <= old_len - copy_len))
}

/// The native stack that a call runs on, and the execution context that it
/// shares with compiled code: `new` and `grow_stack` record in
/// `exec_ctx.stack_bottom_ptr` where the stack they allocate lies.
pub struct CallStack {
    pub stack: Vec<u8>,
    pub stack_top: usize,
    pub exec_ctx: ExecutionContext,
}

/// A call's execution context before compiled code runs: zero but for the
/// stack's bottom, which is not null, and the given address of `memmove`.
pub open spec fn fresh_context(c: ExecutionContext, memmove_address: usize) -> bool {
    &&& c.stack_bottom_ptr != 0
    &&& c.memmove_address == memmove_address
    &&& (ExecutionContext { stack_bottom_ptr: 0, memmove_address: 0, ..c }).is_zeroed()
}

impl CallStack {
    /// The stack a call starts on: `required_initial_stack_size` zeroed
    /// bytes, the top at their aligned top, and a fresh execution context
    /// that records where the stack lies and `memmove_address`, the address
    /// of the `memmove` that compiled code calls.
    pub fn new(size_of_param_result_slice: usize, memmove_address: usize) -> (res: Self)
        requires
            size_of_param_result_slice * 16 + 48 <= usize::MAX,
        ensures
            res.stack@ == Seq::new(spec_required_initial_stack_size(size_of_param_result_slice) as nat, |i: int| 0u8),
            res.exec_ctx.stack_bottom_ptr + res.stack@.len() <= usize::MAX,
            res.stack_top == spec_aligned_top(res.exec_ctx.stack_bottom_ptr, res.stack@.len() as usize),
            res.stack_top % 16 == 0,
            fresh_context(res.exec_ctx, memmove_address),
    {
        let size = required_initial_stack_size(size_of_param_result_slice);
        let stack: Vec<u8> = vec![0u8; size];
        let bottom = slice_address(stack.as_slice());
        let stack_top = aligned_stack_top_at(bottom, size);
        let mut exec_ctx = ExecutionContext::default();
        exec_ctx.memmove_address = memmove_address;
        exec_ctx.stack_bottom_ptr = bottom;
        CallStack { stack, stack_top, exec_ctx }
    }

    fn clone_stack_at(&self, len: usize) -> (res: (usize, usize, usize, Vec<u8>, usize, usize))
        ensures
            res.4 != 0,
            res.4 + len <= usize::MAX,
            res.5 != 0,
            res.5 + self.stack@.len() <= usize::MAX,
            (res.0, res.1, res.2, res.3@) == cloned_stack(
                self.stack@,
                res.5,
                self.stack_top,
                self.exec_ctx.stack_pointer_before_go_call,
                self.exec_ctx.frame_pointer_before_go_call,
                res.4,
                len,
            ),
    {
        let old_bottom = slice_address(self.stack.as_slice());
        let new_stack: Vec<u8> = vec![0u8; len];
        let new_bottom = slice_address(new_stack.as_slice());
        let ghost zeros = new_stack@;
        assert(zeros =~= Seq::new(len as nat, |i: int| 0u8));
        let top = self.stack_top;
        let sp = self.exec_ctx.stack_pointer_before_go_call;
        let fp = self.exec_ctx.frame_pointer_before_go_call;
        if window_copyable(old_bottom, top, sp, self.stack.len(), len) {
            proof {
                lemma_stack_move_fits(old_bottom, top, sp, fp, new_bottom, self.stack@.len(), len);
            }
            let (new_sp, new_fp, new_top, moved) = clone_stack_into(
                self.stack.as_slice(),
                old_bottom,
                top,
                sp,
                fp,
                new_stack,
                new_bottom,
            );
            (new_sp, new_fp, new_top, moved, new_bottom, old_bottom)
        } else {
            let rel_sp = if top >= sp {
                top - sp
            } else {
                0
            };
            let rel_fp = if top >= fp {
                top - fp
            } else {
                0
            };
            let new_top = aligned_stack_top_at(new_bottom, len);
            let new_sp = if new_top >= rel_sp {
                new_top - rel_sp
            } else {
                0
            };
            let new_fp = if new_top >= rel_fp {
                new_top - rel_fp
            } else {
                0
            };
            (new_sp, new_fp, new_top, new_stack, new_bottom, old_bottom)
        }
    }

    /// Moves the running stack into `len` new zeroed bytes: gives the new
    /// stack pointer, frame pointer and top, and the new stack, as
    /// `cloned_stack` places them for the addresses that the old and the new
    /// bytes have.
    pub fn clone_stack(&self, len: usize) -> (res: (usize, usize, usize, Vec<u8>))
        ensures
            exists|old_bottom: usize, new_bottom: usize|
                old_bottom != 0 && old_bottom + self.stack@.len() <= usize::MAX && new_bottom != 0 && new_bottom
                    + len <= usize::MAX && (res.0, res.1, res.2, res.3@) == #[trigger] cloned_stack(
                    self.stack@,
                    old_bottom,
                    self.stack_top,
                    self.exec_ctx.stack_pointer_before_go_call,
                    self.exec_ctx.frame_pointer_before_go_call,
                    new_bottom,
                    len,
                ),
    {
        let (new_sp, new_fp, new_top, moved, new_bottom, old_bottom) = self.clone_stack_at(len);
        (new_sp, new_fp, new_top, moved)
    }

    /// Whether `grow_stack` may be called: the stack is past the ceiling, or
    /// its grown length fits a `usize`.
    pub fn can_grow_stack(&self) -> (res: bool)
        ensures
            res == (self.stack@.len() > CALL_STACK_CEILING || self.stack@.len() * 2
                + self.exec_ctx.stack_grow_required_size + 16 <= usize::MAX),
    {
        let len = self.stack.len();
        if len > CALL_STACK_CEILING {
            return true;
        }
        self.exec_ctx.stack_grow_required_size <= usize::MAX - 16 - 2 * len
    }

    /// Grows the stack when compiled code runs out of it: past the ceiling
    /// that is a stack overflow and nothing changes; else the stack moves
    /// into `grown_stack_len` bytes as `cloned_stack` places it, the context
    /// records the new bottom, and the new stack pointer and frame pointer
    /// are returned.
    pub fn grow_stack(&mut self) -> (res: Result<(usize, usize), RuntimeTrap>)
        requires
            old(self).stack@.len() > CALL_STACK_CEILING || old(self).stack@.len() * 2
                + old(self).exec_ctx.stack_grow_required_size + 16 <= usize::MAX,
        ensures
            old(self).stack@.len() > CALL_STACK_CEILING ==> res == Err::<(usize, usize), RuntimeTrap>(
                RuntimeTrap::StackOverflow,
            ) && *final(self) == *old(self),
            old(self).stack@.len() <= CALL_STACK_CEILING ==> ({
                let new_len = (old(self).stack@.len() * 2 + old(self).exec_ctx.stack_grow_required_size
                    + 16) as usize;
                let b = final(self).exec_ctx.stack_bottom_ptr;
                &&& b != 0
                &&& b + new_len <= usize::MAX
                &&& res is Ok
                &&& final(self).stack@.len() == new_len
                &&& final(self).stack_top % 16 == 0
                &&& final(self).exec_ctx == (ExecutionContext { stack_bottom_ptr: b, ..old(self).exec_ctx })
                &&& exists|old_bottom: usize|
                    old_bottom != 0 && old_bottom + old(self).stack@.len() <= usize::MAX && ({
                        let m = #[trigger] cloned_stack(
                            old(self).stack@,
                            old_bottom,
                            old(self).stack_top,
                            old(self).exec_ctx.stack_pointer_before_go_call,
                            old(self).exec_ctx.frame_pointer_before_go_call,
                            b,
                            new_len,
                        );
                        &&& res == Ok::<(usize, usize), RuntimeTrap>((m.0, m.1))
                        &&& final(self).stack_top == m.2
                        &&& final(self).stack@ == m.3
                    })
            }),
    {
        let current_len = self.stack.len();
        let new_len = match grown_stack_len(current_len, self.exec_ctx.stack_grow_required_size) {
            None => return Err(RuntimeTrap::StackOverflow),
            Some(n) => n,
        };
        let (new_sp, new_fp, new_top, new_stack, new_bottom, old_bottom) = self.clone_stack_at(new_len);
        let ghost old_stack = self.stack@;
        self.stack = new_stack;
        self.stack_top = new_top;
        self.exec_ctx.stack_bottom_ptr = new_bottom;
        Ok((new_sp, new_fp))
    }
}

// ---------------------------------------------------------------------------
// Exit codes
// ---------------------------------------------------------------------------

/// The low byte of an exit code names the exit; the rest carries the index
/// of the host function that a host-call exit calls.
pub fn base_exit_code(raw: u32) -> (res: u32)
    ensures
        res == raw % 256,
{
    assert(raw & 0xff == raw % 256) by (bit_vector);
    raw & 0xff
}

/// The index of the host function that a host-call exit calls.
pub fn go_function_index_from_exit_code(raw: u32) -> (res: u32)
    ensures
        res == raw / 256,
{
    assert(raw >> 8 == raw / 256) by (bit_vector);
    raw >> 8
}

/// An exit code is its base plus 256 times the host function index it
/// carries, and both parts are recovered from it.
pub proof fn lemma_exit_code_parts(index: u32, base: u32)
    requires
        base < 256,
        index < 0x100_0000,
    ensures
        ({
            let raw = (index * 256 + base) as u32;
            &&& raw % 256 == base
            &&& raw / 256 == index
        }),
{
}

/// Why compiled code returned to the engine.
#[derive(Clone, Copy, Debug, PartialEq, Eq, Structural)]
pub enum ExitKind {
    Completed,
    GrowStack,
    CallGoFunction,
    CallGoModuleFunction,
    CallGoFunctionWithListener,
    CallGoModuleFunctionWithListener,
    CheckModuleExitCode,
    Unreachable,
    MemoryOutOfBounds,
    MemoryFault,
    TableOutOfBounds,
    IndirectCallNullPointer,
    IndirectCallTypeMismatch,
    IntegerDivisionByZero,
    IntegerOverflow,
    InvalidConversionToInteger,
    UnalignedAtomic,
    FuelExhausted,
    PolicyDenied,
    GrowMemory,
    TableGrow,
    RefFunc,
    MemoryWait32,
    MemoryWait64,
    MemoryNotify,
    CallListenerBefore,
    CallListenerAfter,
    Other(u32),
}

/// The runtime error that a trapping exit reports.
#[derive(Clone, Copy, Debug, PartialEq, Eq, Structural)]
pub enum RuntimeTrap {
    Unreachable,
    OutOfBoundsMemoryAccess,
    MemoryFault,
    InvalidTableAccess,
    IndirectCallTypeMismatch,
    IntegerDivideByZero,
    IntegerOverflow,
    InvalidConversionToInteger,
    UnalignedAtomic,
    FuelExhausted,
    PolicyDenied,
    StackOverflow,
}

/// An exit that this engine does not serve.
#[derive(Clone, Copy, Debug, PartialEq, Eq, Structural)]
pub enum UnsupportedExit {
    MemoryWait,
    MemoryNotify,
    Listener,
    Unhandled(u32),
}

/// What the engine does for an exit.
#[derive(Clone, Copy, Debug, PartialEq, Eq, Structural)]
pub enum ExitAction {
    /// The call is done: return its results.
    ReturnResults,
    /// Grow the native stack, then resume.
    GrowStack,
    /// Run the host function of a call made from native code, which resumes
    /// native code itself.
    InvokeCompiledHostImport,
    /// Run the engine's own host function, then resume.
    InvokeHost,
    /// Fail if the module has exited, then resume; native code is re-entered
    /// when the exit came in the middle of a host call.
    CheckModuleExitCode { resume_native: bool },
    /// Fail with a runtime error.
    Trap(RuntimeTrap),
    GrowMemory,
    TableGrow,
    RefFunc,
    /// Fail: the engine does not serve this exit.
    Unsupported(UnsupportedExit),
}

/// The engine's decision for an exit; `in_go_call` says whether native code
/// recorded a stack pointer and a return address for a host call in flight.
pub open spec fn spec_exit_action(kind: ExitKind, in_go_call: bool) -> ExitAction {
    match kind {
        ExitKind::Completed => ExitAction::ReturnResults,
        ExitKind::GrowStack => ExitAction::GrowStack,
        ExitKind::CallGoFunction | ExitKind::CallGoModuleFunction | ExitKind::CallGoFunctionWithListener
        | ExitKind::CallGoModuleFunctionWithListener => if in_go_call {
            ExitAction::InvokeCompiledHostImport
        } else {
            ExitAction::InvokeHost
        },
        ExitKind::CheckModuleExitCode => ExitAction::CheckModuleExitCode { resume_native: in_go_call },
        ExitKind::Unreachable => ExitAction::Trap(RuntimeTrap::Unreachable),
        ExitKind::MemoryOutOfBounds => ExitAction::Trap(RuntimeTrap::OutOfBoundsMemoryAccess),
        ExitKind::MemoryFault => ExitAction::Trap(RuntimeTrap::MemoryFault),
        ExitKind::TableOutOfBounds | ExitKind::IndirectCallNullPointer => ExitAction::Trap(
            RuntimeTrap::InvalidTableAccess,
        ),
        ExitKind::IndirectCallTypeMismatch => ExitAction::Trap(RuntimeTrap::IndirectCallTypeMismatch),
        ExitKind::IntegerDivisionByZero => ExitAction::Trap(RuntimeTrap::IntegerDivideByZero),
        ExitKind::IntegerOverflow => ExitAction::Trap(RuntimeTrap::IntegerOverflow),
        ExitKind::InvalidConversionToInteger => ExitAction::Trap(RuntimeTrap::InvalidConversionToInteger),
        ExitKind::UnalignedAtomic => ExitAction::Trap(RuntimeTrap::UnalignedAtomic),
        ExitKind::FuelExhausted => ExitAction::Trap(RuntimeTrap::FuelExhausted),
        ExitKind::PolicyDenied => ExitAction::Trap(RuntimeTrap::PolicyDenied),
        ExitKind::GrowMemory => ExitAction::GrowMemory,
        ExitKind::TableGrow => ExitAction::TableGrow,
        ExitKind::RefFunc => ExitAction::RefFunc,
        ExitKind::MemoryWait32 | ExitKind::MemoryWait64 => ExitAction::Unsupported(UnsupportedExit::MemoryWait),
        ExitKind::MemoryNotify => ExitAction::Unsupported(UnsupportedExit::MemoryNotify),
        ExitKind::CallListenerBefore | ExitKind::CallListenerAfter => ExitAction::Unsupported(
            UnsupportedExit::Listener,
        ),
        ExitKind::Other(raw) => ExitAction::Unsupported(UnsupportedExit::Unhandled(raw)),
    }
}

/// One step of the exit-code loop: what to do for the exit that native code
/// left in the execution context.
pub fn exit_action(kind: ExitKind, stack_pointer_before_go_call: usize, go_call_return_address: usize) -> (res: ExitAction)
    ensures
        res == spec_exit_action(kind, stack_pointer_before_go_call != 0 && go_call_return_address != 0),
{
    let in_go_call = stack_pointer_before_go_call != 0 && go_call_return_address != 0;
    match kind {
        ExitKind::Completed => ExitAction::ReturnResults,
        ExitKind::GrowStack => ExitAction::GrowStack,
        ExitKind::CallGoFunction | ExitKind::CallGoModuleFunction | ExitKind::CallGoFunctionWithListener
        | ExitKind::CallGoModuleFunctionWithListener => if in_go_call {
            ExitAction::InvokeCompiledHostImport
        } else {
            ExitAction::InvokeHost
        },
        ExitKind::CheckModuleExitCode => ExitAction::CheckModuleExitCode { resume_native: in_go_call },
        ExitKind::Unreachable => ExitAction::Trap(RuntimeTrap::Unreachable),
        ExitKind::MemoryOutOfBounds => ExitAction::Trap(RuntimeTrap::OutOfBoundsMemoryAccess),
        ExitKind::MemoryFault => ExitAction::Trap(RuntimeTrap::MemoryFault),
        ExitKind::TableOutOfBounds | ExitKind::IndirectCallNullPointer => ExitAction::Trap(
            RuntimeTrap::InvalidTableAccess,
        ),
        ExitKind::IndirectCallTypeMismatch => ExitAction::Trap(RuntimeTrap::IndirectCallTypeMismatch),
        ExitKind::IntegerDivisionByZero => ExitAction::Trap(RuntimeTrap::IntegerDivideByZero),
        ExitKind::IntegerOverflow => ExitAction::Trap(RuntimeTrap::IntegerOverflow),
        ExitKind::InvalidConversionToInteger => ExitAction::Trap(RuntimeTrap::InvalidConversionToInteger),
        ExitKind::UnalignedAtomic => ExitAction::Trap(RuntimeTrap::UnalignedAtomic),
        ExitKind::FuelExhausted => ExitAction::Trap(RuntimeTrap::FuelExhausted),
        ExitKind::PolicyDenied => ExitAction::Trap(RuntimeTrap::PolicyDenied),
        ExitKind::GrowMemory => ExitAction::GrowMemory,
        ExitKind::TableGrow => ExitAction::TableGrow,
        ExitKind::RefFunc => ExitAction::RefFunc,
        ExitKind::MemoryWait32 | ExitKind::MemoryWait64 => ExitAction::Unsupported(UnsupportedExit::MemoryWait),
        ExitKind::MemoryNotify => ExitAction::Unsupported(UnsupportedExit::MemoryNotify),
        ExitKind::CallListenerBefore | ExitKind::CallListenerAfter => ExitAction::Unsupported(
            UnsupportedExit::Listener,
        ),
        ExitKind::Other(raw) => ExitAction::Unsupported(UnsupportedExit::Unhandled(raw)),
    }
}

/// Whether the engine clears the exit code after serving the action, so
/// that the loop sees a completed call unless native code exits again: every
/// action but those that end the call does.
pub open spec fn spec_resets_exit_code(action: ExitAction) -> bool {
    match action {
        ExitAction::ReturnResults | ExitAction::Trap(_) | ExitAction::Unsupported(_) => false,
        _ => true,
    }
}

pub fn resets_exit_code(action: ExitAction) -> (res: bool)
    ensures
        res == spec_resets_exit_code(action),
{
    match action {
        ExitAction::ReturnResults | ExitAction::Trap(_) | ExitAction::Unsupported(_) => false,
        _ => true,
    }
}

/// The text that an unsupported exit is reported with.
pub open spec fn unsupported_exit_detail_text(exit: UnsupportedExit) -> Seq<char> {
    match exit {
        UnsupportedExit::MemoryWait => "memory.wait requires runtime integration"@,
        UnsupportedExit::MemoryNotify => "memory.notify requires runtime integration"@,
        UnsupportedExit::Listener => "listener trampoline requires runtime integration"@,
        UnsupportedExit::Unhandled(_) => "unhandled compiler exit code"@,
    }
}

impl UnsupportedExit {
    pub fn detail(&self) -> (res: &'static str)
        ensures
            res@ == unsupported_exit_detail_text(*self),
    {
        match self {
            UnsupportedExit::MemoryWait => "memory.wait requires runtime integration",
            UnsupportedExit::MemoryNotify => "memory.notify requires runtime integration",
            UnsupportedExit::Listener => "listener trampoline requires runtime integration",
            UnsupportedExit::Unhandled(_) => "unhandled compiler exit code",
        }
    }
}

/// The result slot of `ref.func`: the function index, saturated to `u32`.
pub fn ref_func_result(raw: u64) -> (res: u64)
    ensures
        res == if raw > u32::MAX as u64 {
            u32::MAX as u64
        } else {
            raw
        },
{
    if raw > u32::MAX as u64 {
        u32::MAX as u64
    } else {
        raw
    }
}

/// A table reference from its raw slot: all ones is the null reference.
pub fn raw_reference(raw: u64) -> (res: Option<u64>)
    ensures
        res == if raw == u64::MAX {
            None
        } else {
            Some(raw)
        },
{
    if raw == u64::MAX {
        None
    } else {
        Some(raw)
    }
}

/// A `u32` argument from its raw slot, saturated.
pub fn saturating_u32(raw: u64) -> (res: u32)
    ensures
        res == if raw > u32::MAX as u64 {
            u32::MAX as int
        } else {
            raw as int
        },
{
    if raw > u32::MAX as u64 {
        u32::MAX
    } else {
        raw as u32
    }
}

// ---------------------------------------------------------------------------
// Calls and the engine's services to compiled code
// ---------------------------------------------------------------------------

/// Why a call into compiled code failed: too few parameters, a failed host
/// function (its message), a module that exited (its exit code), a runtime
/// trap, or an exit that this engine does not serve (the base exit code and
/// what is missing).
#[derive(Clone, Debug, PartialEq, Eq)]
pub enum CallEngineError {
    InvalidParamCount { expected: usize, actual: usize },
    Host(String),
    ModuleExit(u32),
    Runtime(RuntimeTrap),
    UnsupportedExit { exit_code: u32, detail: String },
}

impl CallEngineError {
    pub fn unsupported(exit_code: u32, detail: &str) -> (res: Self)
        ensures
            res matches CallEngineError::UnsupportedExit { exit_code: c, detail: d } && c == exit_code && d@
                == detail@,
    {
        CallEngineError::UnsupportedExit { exit_code, detail: crate::text::string_of(detail) }
    }
}

/// The message of a host call with too few parameters on its stack.
pub open spec fn host_params_text(required_params: usize, stack_len: usize) -> Seq<char> {
    "need "@ + crate::text::decimal(required_params as nat) + " params, but stack size is "@
        + crate::text::decimal(stack_len as nat)
}

/// Whether the engine's host function may run on a stack of `stack_len`
/// slots: the stack must hold the parameters, and there must be a host
/// function; each failure is a host error with its message.
pub fn host_call_check(required_params: usize, stack_len: usize, has_host_func: bool) -> (res: Result<
    (),
    CallEngineError,
>)
    ensures
        required_params > stack_len ==> (res matches Err(CallEngineError::Host(m)) && m@ == host_params_text(
            required_params,
            stack_len,
        )),
        required_params <= stack_len && !has_host_func ==> (res matches Err(CallEngineError::Host(m)) && m@
            == "host function not configured"@),
        required_params <= stack_len && has_host_func ==> res is Ok,
{
    if required_params > stack_len {
        let mut m = crate::text::string_of("need ");
        crate::text::push_decimal(&mut m, required_params as u64);
        crate::text::push_str(&mut m, " params, but stack size is ");
        crate::text::push_decimal(&mut m, stack_len as u64);
        return Err(CallEngineError::Host(m));
    }
    if !has_host_func {
        return Err(CallEngineError::Host(crate::text::string_of("host function not configured")));
    }
    Ok(())
}

/// How a call begins, once its parameters are there.
#[derive(Clone, Copy, Debug, PartialEq, Eq, Structural)]
pub enum CallStart {
    /// Enter the compiled function through its preamble, then run the exit
    /// loop.
    EnterCompiled,
    /// Run the exit loop directly: from a host call when `host_call` holds,
    /// else from the exit code as it stands.
    RunLoop { host_call: bool },
}

/// The start of a call: too few parameters is an error; a function with an
/// entry preamble is entered (an error if it has no executable); else the
/// exit loop runs, from a host call when the function is a host function and
/// no exit is pending.
pub fn call_start(
    required_params: usize,
    stack_len: usize,
    preamble_executable_ptr: usize,
    executable_ptr: usize,
    has_host_func: bool,
    exit_pending: bool,
) -> (res: Result<CallStart, CallEngineError>)
    ensures
        required_params > stack_len ==> res == Err::<CallStart, CallEngineError>(
            CallEngineError::InvalidParamCount { expected: required_params, actual: stack_len },
        ),
        required_params <= stack_len && preamble_executable_ptr != 0 && executable_ptr == 0 ==> (res matches Err(
            CallEngineError::UnsupportedExit { exit_code: c, detail: d },
        ) && c == 0 && d@ == "compiled function executable is not configured"@),
        required_params <= stack_len && preamble_executable_ptr != 0 && executable_ptr != 0 ==> res == Ok::<
            CallStart,
            CallEngineError,
        >(CallStart::EnterCompiled),
        required_params <= stack_len && preamble_executable_ptr == 0 ==> res == Ok::<CallStart, CallEngineError>(
            CallStart::RunLoop { host_call: !exit_pending && has_host_func },
        ),
{
    if required_params > stack_len {
        return Err(CallEngineError::InvalidParamCount { expected: required_params, actual: stack_len });
    }
    if preamble_executable_ptr != 0 {
        if executable_ptr == 0 {
            return Err(CallEngineError::unsupported(0, "compiled function executable is not configured"));
        }
        return Ok(CallStart::EnterCompiled);
    }
    Ok(CallStart::RunLoop { host_call: !exit_pending && has_host_func })
}

/// What `memory.grow` asks of the memory.
#[derive(Clone, Copy, Debug, PartialEq, Eq, Structural)]
pub enum MemoryGrowStep {
    /// The module has no memory: the result is all ones.
    NoMemory,
    /// Grow the memory by `delta` pages.
    Grow { delta: u32 },
}

/// The first half of `memory.grow`: the delta is the first stack slot,
/// saturated to `u32`; an empty stack and a call without a module are
/// errors.
pub fn memory_grow_step(stack: &[u64], has_module: bool, has_memory: bool, base_exit_code: u32) -> (res: Result<
    MemoryGrowStep,
    CallEngineError,
>)
    ensures
        stack@.len() == 0 ==> res == Err::<MemoryGrowStep, CallEngineError>(
            CallEngineError::InvalidParamCount { expected: 1, actual: 0 },
        ),
        stack@.len() > 0 && !has_module ==> (res matches Err(CallEngineError::UnsupportedExit { exit_code: c, detail: d })
            && c == base_exit_code && d@ == "memory.grow requires a module context"@),
        stack@.len() > 0 && has_module && !has_memory ==> res == Ok::<MemoryGrowStep, CallEngineError>(
            MemoryGrowStep::NoMemory,
        ),
        stack@.len() > 0 && has_module && has_memory ==> res == Ok::<MemoryGrowStep, CallEngineError>(
            MemoryGrowStep::Grow {
                delta: if stack@[0] > u32::MAX as u64 {
                    u32::MAX
                } else {
                    stack@[0] as u32
                },
            },
        ),
{
    if stack.len() == 0 {
        return Err(CallEngineError::InvalidParamCount { expected: 1, actual: 0 });
    }
    if !has_module {
        return Err(CallEngineError::unsupported(base_exit_code, "memory.grow requires a module context"));
    }
    if !has_memory {
        return Ok(MemoryGrowStep::NoMemory);
    }
    Ok(MemoryGrowStep::Grow { delta: saturating_u32(stack[0]) })
}

/// The second half of `memory.grow`: the first stack slot becomes the
/// memory's previous size in pages, or all ones when it did not grow or
/// there is no memory.
pub fn finish_memory_grow(stack: &mut [u64], previous_pages: Option<u32>)
    requires
        old(stack)@.len() > 0,
    ensures
        final(stack)@ == old(stack)@.update(
            0,
            match previous_pages {
                Some(p) => p as u64,
                None => u32::MAX as u64,
            },
        ),
{
    stack[0] = match previous_pages {
        Some(p) => p as u64,
        None => u32::MAX as u64,
    };
}

/// What `table.grow` asks of a table.
#[derive(Clone, Copy, Debug, PartialEq, Eq, Structural)]
pub struct TableGrowRequest {
    pub table_index: usize,
    pub delta: u32,
    pub initial: Option<u64>,
}

/// The first half of `table.grow`: the table index, the delta (saturated to
/// `u32`) and the initial reference come from the first three stack slots;
/// fewer slots and a call without a module are errors.
pub fn table_grow_request(stack: &[u64], has_module: bool, base_exit_code: u32) -> (res: Result<
    TableGrowRequest,
    CallEngineError,
>)
    ensures
        stack@.len() < 3 ==> res == Err::<TableGrowRequest, CallEngineError>(
            CallEngineError::InvalidParamCount { expected: 3, actual: stack@.len() as usize },
        ),
        stack@.len() >= 3 && !has_module ==> (res matches Err(CallEngineError::UnsupportedExit { exit_code: c, detail: d })
            && c == base_exit_code && d@ == "table.grow requires a module context"@),
        stack@.len() >= 3 && has_module ==> res == Ok::<TableGrowRequest, CallEngineError>(
            TableGrowRequest {
                table_index: if stack@[0] > usize::MAX as u64 {
                    usize::MAX
                } else {
                    stack@[0] as usize
                },
                delta: if stack@[1] > u32::MAX as u64 {
                    u32::MAX
                } else {
                    stack@[1] as u32
                },
                initial: if stack@[2] == u64::MAX {
                    None
                } else {
                    Some(stack@[2])
                },
            },
        ),
{
    if stack.len() < 3 {
        return Err(CallEngineError::InvalidParamCount { expected: 3, actual: stack.len() });
    }
    if !has_module {
        return Err(CallEngineError::unsupported(base_exit_code, "table.grow requires a module context"));
    }
    let table_index: usize = if stack[0] > usize::MAX as u64 {
        usize::MAX
    } else {
        stack[0] as usize
    };
    Ok(TableGrowRequest { table_index, delta: saturating_u32(stack[1]), initial: raw_reference(stack[2]) })
}

/// The second half of `table.grow`: a missing table is an invalid table
/// access; else the first stack slot becomes the grow result.
pub fn finish_table_grow(stack: &mut [u64], result: Option<u32>) -> (res: Result<(), CallEngineError>)
    requires
        old(stack)@.len() > 0,
    ensures
        match result {
            None => res == Err::<(), CallEngineError>(CallEngineError::Runtime(RuntimeTrap::InvalidTableAccess))
                && final(stack)@ == old(stack)@,
            Some(r) => res is Ok && final(stack)@ == old(stack)@.update(0, r as u64),
        },
{
    match result {
        None => Err(CallEngineError::Runtime(RuntimeTrap::InvalidTableAccess)),
        Some(r) => {
            stack[0] = r as u64;
            Ok(())
        },
    }
}

/// `ref.func`: the first stack slot, saturated to `u32`; an empty stack is
/// an error.
pub fn ref_func(stack: &mut [u64]) -> (res: Result<(), CallEngineError>)
    ensures
        old(stack)@.len() == 0 ==> res == Err::<(), CallEngineError>(
            CallEngineError::InvalidParamCount { expected: 1, actual: 0 },
        ) && final(stack)@ == old(stack)@,
        old(stack)@.len() > 0 ==> res is Ok && final(stack)@ == old(stack)@.update(
            0,
            if old(stack)@[0] > u32::MAX as u64 {
                u32::MAX as u64
            } else {
                old(stack)@[0]
            },
        ),
{
    if stack.len() == 0 {
        return Err(CallEngineError::InvalidParamCount { expected: 1, actual: 0 });
    }
    stack[0] = ref_func_result(stack[0]);
    Ok(())
}

/// `check_module_exit_code`: an error carrying the module's exit code when
/// it has exited.
pub fn check_module_exit_code(module_exit_code: Option<u32>) -> (res: Result<(), CallEngineError>)
    ensures
        match module_exit_code {
            Some(c) => res == Err::<(), CallEngineError>(CallEngineError::ModuleExit(c)),
            None => res is Ok,
        },
{
    match module_exit_code {
        Some(c) => Err(CallEngineError::ModuleExit(c)),
        None => Ok(()),
    }
}

/// After `memory.grow`, points the module context's memory definition at
/// the memory's bytes: its address and length, or zeros when the module has
/// no memory; nothing when the context has no memory region.
pub fn refresh_local_memory_definition(opaque: &mut [u8], local_memory_begin: i32, memory: Option<(u64, u64)>)
    requires
        local_memory_begin >= 0 ==> local_memory_begin + 16 <= old(opaque)@.len(),
    ensures
        local_memory_begin < 0 ==> final(opaque)@ == old(opaque)@,
        local_memory_begin >= 0 ==> final(opaque)@ == crate::module_engine::with_memory(
            old(opaque)@,
            local_memory_begin as int,
            Some(
                match memory {
                    Some(m) => m,
                    None => (0u64, 0u64),
                },
            ),
        ),
{
    if local_memory_begin < 0 {
        return;
    }
    let definition = match memory {
        Some(m) => m,
        None => (0u64, 0u64),
    };
    crate::module_engine::put_local_memory(opaque, local_memory_begin as usize, Some(definition));
}

} // verus!
