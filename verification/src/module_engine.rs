//! A module instance's opaque context, the little-endian words that compiled
//! code reads for memories, globals, tables and imported functions; and the
//! setup of the call engine behind a function handle.

use vstd::prelude::*;
use crate::le_bytes::{le_u64, lemma_u64_le_at_encoding, u64_le_at};
use crate::aot::AotModuleContextMetadata;
use crate::const_expr::LinkedGlobalValue;
use crate::runtime_support::{with_globals, with_tables};
use crate::aot::AotFunctionTypeMetadata;
use crate::call_engine::ExecutionContext;

verus! {

/// `bytes` with the little-endian bytes of `value` at `offset`.
pub open spec fn with_u64_at(bytes: Seq<u8>, offset: int, value: u64) -> Seq<u8> {
    bytes.take(offset) + le_u64(value) + bytes.skip(offset + 8)
}

/// Overwrites the eight bytes at `offset` with the little-endian bytes of
/// `value`.
pub fn write_u64(bytes: &mut [u8], offset: usize, value: u64)
    requires
        offset + 8 <= old(bytes)@.len(),
    ensures
        final(bytes)@ == with_u64_at(old(bytes)@, offset as int, value),
{
    bytes[offset] = (value & 0xff) as u8;
    bytes[offset + 1] = ((value >> 8) & 0xff) as u8;
    bytes[offset + 2] = ((value >> 16) & 0xff) as u8;
    bytes[offset + 3] = ((value >> 24) & 0xff) as u8;
    bytes[offset + 4] = ((value >> 32) & 0xff) as u8;
    bytes[offset + 5] = ((value >> 40) & 0xff) as u8;
    bytes[offset + 6] = ((value >> 48) & 0xff) as u8;
    bytes[offset + 7] = ((value >> 56) & 0xff) as u8;
    assert(bytes@ =~= with_u64_at(old(bytes)@, offset as int, value));
}

/// Writes the pointer of a slice at `offset` unless the region is absent (a
/// negative offset) or the slice is empty.
pub fn write_optional_slice_ptr(bytes: &mut [u8], offset: i32, ptr: usize, empty: bool)
    requires
        offset >= 0 && !empty ==> offset + 8 <= old(bytes)@.len(),
    ensures
        offset >= 0 && !empty ==> final(bytes)@ == with_u64_at(old(bytes)@, offset as int, ptr as u64),
        !(offset >= 0 && !empty) ==> final(bytes)@ == old(bytes)@,
{
    if offset >= 0 && !empty {
        write_u64(bytes, offset as usize, ptr as u64);
    }
}

/// What a module instance's opaque context points at: the instance itself,
/// its memory (address, 0 when it has no bytes, and length), its globals,
/// the address of its type-id array, its tables, and the addresses of its
/// data and element instances, each `None` when there are none.
pub struct OpaqueState {
    pub module_instance: u64,
    pub memory: Option<(u64, u64)>,
    pub globals: Vec<LinkedGlobalValue>,
    pub type_ids: Option<u64>,
    pub tables: Vec<usize>,
    pub data_instances: Option<u64>,
    pub element_instances: Option<u64>,
}

/// `b` with the memory's address and length at `offset`, when there is a
/// memory.
pub open spec fn with_memory(b: Seq<u8>, offset: int, memory: Option<(u64, u64)>) -> Seq<u8> {
    match memory {
        Some((base, len)) => with_u64_at(with_u64_at(b, offset, base), offset + 8, len),
        None => b,
    }
}

/// `b` with `value` at `offset`, when the region is present and there is a
/// value.
pub open spec fn with_optional(b: Seq<u8>, offset: int, value: Option<u64>) -> Seq<u8> {
    match value {
        Some(v) => if offset >= 0 {
            with_u64_at(b, offset, v)
        } else {
            b
        },
        None => b,
    }
}

/// The opaque context after setup: nothing for a context of no bytes; else
/// the memory, the instance's address, the globals, the type-id array, the
/// tables and the data and element instances, each at its region's offset
/// when the region is present.
pub open spec fn opaque_contents(ctx: AotModuleContextMetadata, st: OpaqueState, b: Seq<u8>) -> Seq<u8> {
    if ctx.total_size == 0 {
        b
    } else {
        let b1 = if ctx.local_memory_begin >= 0 {
            with_memory(b, ctx.local_memory_begin as int, st.memory)
        } else {
            b
        };
        let b2 = with_u64_at(b1, ctx.module_instance_offset as int, st.module_instance);
        let b3 = if ctx.globals_begin >= 0 {
            with_globals(b2, ctx.globals_begin as int, st.globals@, st.globals@.len())
        } else {
            b2
        };
        let b4 = with_optional(b3, ctx.type_ids_1st_element as int, st.type_ids);
        let b5 = if ctx.tables_begin >= 0 {
            with_tables(b4, ctx.tables_begin as int, st.tables@, st.tables@.len())
        } else {
            b4
        };
        let b6 = with_optional(b5, ctx.data_instances_1st_element as int, st.data_instances);
        with_optional(b6, ctx.element_instances_1st_element as int, st.element_instances)
    }
}

/// Whether every write of the setup falls inside `len` bytes.
pub open spec fn opaque_fits(ctx: AotModuleContextMetadata, st: OpaqueState, len: nat) -> bool {
    ctx.total_size != 0 ==> {
        &&& ctx.local_memory_begin >= 0 && st.memory is Some ==> ctx.local_memory_begin + 16 <= len
        &&& 0 <= ctx.module_instance_offset && ctx.module_instance_offset + 8 <= len
        &&& ctx.globals_begin >= 0 ==> ctx.globals_begin + 16 * st.globals@.len() <= len
        &&& ctx.type_ids_1st_element >= 0 && st.type_ids is Some ==> ctx.type_ids_1st_element + 8 <= len
        &&& ctx.tables_begin >= 0 ==> ctx.tables_begin + 8 * st.tables@.len() <= len
        &&& ctx.data_instances_1st_element >= 0 && st.data_instances is Some ==> ctx.data_instances_1st_element
            + 8 <= len
        &&& ctx.element_instances_1st_element >= 0 && st.element_instances is Some
            ==> ctx.element_instances_1st_element + 8 <= len
    }
}

/// Writes a memory's address and length at `offset`, when there is a memory.
pub fn put_local_memory(bytes: &mut [u8], offset: usize, memory: Option<(u64, u64)>)
    requires
        memory is Some ==> offset + 16 <= old(bytes)@.len(),
    ensures
        final(bytes)@ == with_memory(old(bytes)@, offset as int, memory),
{
    let _size = bytes.len();
    match memory {
        Some((base, len)) => {
            write_u64(bytes, offset, base);
            write_u64(bytes, offset + 8, len);
        },
        None => {},
    }
}

/// Whether a global's value is kept in the opaque context: the module has
/// the global and the context has a globals region.
pub open spec fn global_slot_present(globals_begin: i32, global_count: usize, index: u32) -> bool {
    index < global_count && globals_begin >= 0
}

/// Where the 16-byte slot of global `index` starts.
pub open spec fn global_slot(globals_begin: i32, index: u32) -> int {
    globals_begin + 16 * index
}

/// Stores a global's new value where compiled code reads it: its low and
/// high words in the global's slot, when the slot is present; otherwise the
/// context is left as it was.
pub fn set_global_value(opaque: &mut [u8], globals_begin: i32, global_count: usize, index: u32, lo: u64, hi: u64)
    requires
        global_slot_present(globals_begin, global_count, index) ==> global_slot(globals_begin, index) + 16
            <= old(opaque)@.len(),
    ensures
        global_slot_present(globals_begin, global_count, index) ==> final(opaque)@ == with_u64_at(
            with_u64_at(old(opaque)@, global_slot(globals_begin, index), lo),
            global_slot(globals_begin, index) + 8,
            hi,
        ),
        !global_slot_present(globals_begin, global_count, index) ==> final(opaque)@ == old(opaque)@,
{
    if (index as usize) < global_count && globals_begin >= 0 {
        let len = opaque.len();
        assert(globals_begin + 16 * index + 16 <= len);
        let at = globals_begin as usize + 16 * (index as usize);
        write_u64(opaque, at, lo);
        write_u64(opaque, at + 8, hi);
    }
}

/// A global's slot gives back the value last stored in it: its low word,
/// then its high word.
pub proof fn lemma_global_value_round_trip(b: Seq<u8>, at: int, lo: u64, hi: u64)
    requires
        0 <= at,
        at + 16 <= b.len(),
    ensures
        u64_le_at(with_u64_at(with_u64_at(b, at, lo), at + 8, hi), at) == lo,
        u64_le_at(with_u64_at(with_u64_at(b, at, lo), at + 8, hi), at + 8) == hi,
{
    let b1 = with_u64_at(b, at, lo);
    let b2 = with_u64_at(b1, at + 8, hi);
    assert(b2 =~= b.take(at) + (le_u64(lo) + (le_u64(hi) + b.skip(at + 16))));
    lemma_u64_le_at_encoding(b.take(at), lo, le_u64(hi) + b.skip(at + 16));
    assert(b2 =~= b1.take(at + 8) + (le_u64(hi) + b.skip(at + 16)));
    lemma_u64_le_at_encoding(b1.take(at + 8), hi, b.skip(at + 16));
}

fn put_optional(bytes: &mut [u8], offset: i32, value: Option<u64>)
    requires
        offset >= 0 && value is Some ==> offset + 8 <= old(bytes)@.len(),
    ensures
        final(bytes)@ == with_optional(old(bytes)@, offset as int, value),
{
    match value {
        Some(v) => if offset >= 0 {
            write_u64(bytes, offset as usize, v);
        },
        None => {},
    }
}

/// Fills a module instance's opaque context, as `opaque_contents` says.
pub fn setup_opaque(bytes: &mut [u8], ctx: &AotModuleContextMetadata, st: &OpaqueState)
    requires
        opaque_fits(*ctx, *st, old(bytes)@.len()),
    ensures
        final(bytes)@ == opaque_contents(*ctx, *st, old(bytes)@),
{
    if ctx.total_size == 0 {
        return;
    }
    let len = bytes.len();
    if ctx.local_memory_begin >= 0 {
        put_local_memory(bytes, ctx.local_memory_begin as usize, st.memory);
    }
    write_u64(bytes, ctx.module_instance_offset as usize, st.module_instance);
    let ghost b2 = bytes@;
    if ctx.globals_begin >= 0 {
        let start = ctx.globals_begin as usize;
        let n = st.globals.len();
        let mut i: usize = 0;
        while i < n
            invariant
                n == st.globals@.len(),
                len == bytes@.len(),
                start + 16 * n <= len,
                start == ctx.globals_begin,
                i <= n,
                bytes@ == with_globals(b2, start as int, st.globals@, i as nat),
            decreases n - i,
        {
            let at = start + 16 * i;
            write_u64(bytes, at, st.globals[i].value_lo);
            write_u64(bytes, at + 8, st.globals[i].value_hi);
            i = i + 1;
        }
    }
    put_optional(bytes, ctx.type_ids_1st_element, st.type_ids);
    let ghost b4 = bytes@;
    if ctx.tables_begin >= 0 {
        let start = ctx.tables_begin as usize;
        let n = st.tables.len();
        let mut i: usize = 0;
        while i < n
            invariant
                n == st.tables@.len(),
                len == bytes@.len(),
                start + 8 * n <= len,
                start == ctx.tables_begin,
                i <= n,
                bytes@ == with_tables(b4, start as int, st.tables@, i as nat),
            decreases n - i,
        {
            write_u64(bytes, start + 8 * i, st.tables[i] as u64);
            i = i + 1;
        }
    }
    put_optional(bytes, ctx.data_instances_1st_element, st.data_instances);
    put_optional(bytes, ctx.element_instances_1st_element, st.element_instances);
}

// ---------------------------------------------------------------------------
// Function handles and imported functions
// ---------------------------------------------------------------------------

/// A resolved imported function: where its code and entry preamble are, the
/// context of the module that defines it, its type id, and whether it is a
/// host function.
#[derive(Clone, Copy, Debug, Default, PartialEq, Eq, Structural)]
pub struct ImportedFunction {
    pub executable_ptr: usize,
    pub preamble_executable_ptr: usize,
    pub module_context_ptr: usize,
    pub type_id: u32,
    pub has_host_func: bool,
}

/// The addresses of the shared trampolines that were compiled.
#[derive(Clone, Copy, Debug, Default, PartialEq, Eq, Structural)]
pub struct SharedFunctionAddresses {
    pub memory_grow: Option<usize>,
    pub stack_grow: Option<usize>,
    pub check_module_exit_code: Option<usize>,
    pub table_grow: Option<usize>,
    pub ref_func: Option<usize>,
    pub memory_wait32: Option<usize>,
    pub memory_wait64: Option<usize>,
    pub memory_notify: Option<usize>,
}

/// What the call engine of a function handle starts with: the function's
/// code, entry preamble and module context, its slot counts, whether it is a
/// host function, and its execution context.
#[derive(Clone, Copy, Debug)]
pub struct FunctionCallSetup {
    pub index: u32,
    pub executable_ptr: usize,
    pub preamble_executable_ptr: usize,
    pub module_context_ptr: usize,
    pub size_of_param_result_slice: usize,
    pub required_params: usize,
    pub number_of_results: usize,
    pub has_host_func: bool,
    pub exec_ctx: ExecutionContext,
}

pub open spec fn or_zero(a: Option<usize>) -> usize {
    match a {
        Some(v) => v,
        None => 0,
    }
}

pub open spec fn slot_counts(ty: Option<AotFunctionTypeMetadata>) -> (usize, usize) {
    match ty {
        Some(t) => (t.param_num_in_u64, t.result_num_in_u64),
        None => (0, 0),
    }
}

/// Whether the execution context of a handle is zeroed but for the given
/// `memmove` address, trampoline addresses and fuel.
pub open spec fn handle_context(
    c: ExecutionContext,
    memmove_address: usize,
    shared: Option<SharedFunctionAddresses>,
    fuel: i64,
) -> bool {
    &&& c.memmove_address == memmove_address
    &&& c.exit_code == 0
    &&& c.caller_module_context_ptr == 0
    &&& c.stack_bottom_ptr == 0
    &&& c.stack_pointer_before_go_call == 0
    &&& c.go_call_return_address == 0
    &&& c.frame_pointer_before_go_call == 0
    &&& c.fuel == fuel
    &&& match shared {
        Some(sf) => {
            &&& c.memory_grow_trampoline_address == or_zero(sf.memory_grow)
            &&& c.stack_grow_call_trampoline_address == or_zero(sf.stack_grow)
            &&& c.check_module_exit_code_trampoline_address == or_zero(sf.check_module_exit_code)
            &&& c.table_grow_trampoline_address == or_zero(sf.table_grow)
            &&& c.ref_func_trampoline_address == or_zero(sf.ref_func)
            &&& c.memory_wait32_trampoline_address == or_zero(sf.memory_wait32)
            &&& c.memory_wait64_trampoline_address == or_zero(sf.memory_wait64)
            &&& c.memory_notify_trampoline_address == or_zero(sf.memory_notify)
        },
        None => {
            &&& c.memory_grow_trampoline_address == 0
            &&& c.stack_grow_call_trampoline_address == 0
            &&& c.check_module_exit_code_trampoline_address == 0
            &&& c.table_grow_trampoline_address == 0
            &&& c.ref_func_trampoline_address == 0
            &&& c.memory_wait32_trampoline_address == 0
            &&& c.memory_wait64_trampoline_address == 0
            &&& c.memory_notify_trampoline_address == 0
        },
    }
}

/// The call engine setup of function `index`. An imported function (index
/// below `import_function_count`) runs with its resolution's code, preamble
/// and module context, no trampolines and no fuel. A local function runs
/// with its code and its type's entry preamble (0 where there is none), the
/// module's own context, the shared trampolines (0 where one is missing) and
/// the module's fuel when fuel is enabled. Both take the larger of their parameter
/// and result slot counts as their stack; a function of unknown type has no
/// slots. `memmove_address` is the address of the `memmove` that compiled
/// code calls.
pub fn new_compiler_function(
    index: u32,
    import_function_count: u32,
    imported: &[ImportedFunction],
    ty: Option<AotFunctionTypeMetadata>,
    local_function_ptr: Option<usize>,
    local_preamble_ptr: Option<usize>,
    local_has_host_func: bool,
    opaque_ptr: usize,
    shared: &SharedFunctionAddresses,
    fuel_enabled: bool,
    fuel: i64,
    memmove_address: usize,
) -> (res: FunctionCallSetup)
    requires
        index < import_function_count ==> index < imported@.len(),
    ensures
        res.index == index,
        res.required_params == slot_counts(ty).0,
        res.number_of_results == slot_counts(ty).1,
        res.size_of_param_result_slice == if slot_counts(ty).0 >= slot_counts(ty).1 {
            slot_counts(ty).0
        } else {
            slot_counts(ty).1
        },
        index < import_function_count ==> {
            let f = imported@[index as int];
            &&& res.executable_ptr == f.executable_ptr
            &&& res.preamble_executable_ptr == f.preamble_executable_ptr
            &&& res.module_context_ptr == f.module_context_ptr
            &&& res.has_host_func == f.has_host_func
            &&& handle_context(res.exec_ctx, memmove_address, None, 0)
        },
        index >= import_function_count ==> {
            &&& res.executable_ptr == or_zero(local_function_ptr)
            &&& res.preamble_executable_ptr == or_zero(local_preamble_ptr)
            &&& res.module_context_ptr == opaque_ptr
            &&& res.has_host_func == local_has_host_func
            &&& handle_context(
                res.exec_ctx,
                memmove_address,
                Some(*shared),
                if fuel_enabled {
                    fuel
                } else {
                    0
                },
            )
        },
{
    let (params, results) = match &ty {
        Some(t) => (t.param_num_in_u64, t.result_num_in_u64),
        None => (0, 0),
    };
    let slots = if params >= results {
        params
    } else {
        results
    };
    let mut exec_ctx = ExecutionContext::default();
    exec_ctx.memmove_address = memmove_address;
    if index < import_function_count {
        let f = imported[index as usize];
        return FunctionCallSetup {
            index,
            executable_ptr: f.executable_ptr,
            preamble_executable_ptr: f.preamble_executable_ptr,
            module_context_ptr: f.module_context_ptr,
            size_of_param_result_slice: slots,
            required_params: params,
            number_of_results: results,
            has_host_func: f.has_host_func,
            exec_ctx,
        };
    }
    exec_ctx.memory_grow_trampoline_address = unwrap_or_zero(shared.memory_grow);
    exec_ctx.stack_grow_call_trampoline_address = unwrap_or_zero(shared.stack_grow);
    exec_ctx.check_module_exit_code_trampoline_address = unwrap_or_zero(shared.check_module_exit_code);
    exec_ctx.table_grow_trampoline_address = unwrap_or_zero(shared.table_grow);
    exec_ctx.ref_func_trampoline_address = unwrap_or_zero(shared.ref_func);
    exec_ctx.memory_wait32_trampoline_address = unwrap_or_zero(shared.memory_wait32);
    exec_ctx.memory_wait64_trampoline_address = unwrap_or_zero(shared.memory_wait64);
    exec_ctx.memory_notify_trampoline_address = unwrap_or_zero(shared.memory_notify);
    if fuel_enabled {
        exec_ctx.fuel = fuel;
    }
    FunctionCallSetup {
        index,
        executable_ptr: unwrap_or_zero(local_function_ptr),
        preamble_executable_ptr: unwrap_or_zero(local_preamble_ptr),
        module_context_ptr: opaque_ptr,
        size_of_param_result_slice: slots,
        required_params: params,
        number_of_results: results,
        has_host_func: local_has_host_func,
        exec_ctx,
    }
}

fn unwrap_or_zero(a: Option<usize>) -> (res: usize)
    ensures
        res == or_zero(a),
{
    match a {
        Some(v) => v,
        None => 0,
    }
}

/// The function an import resolves to: the exporting module's own
/// resolution of one of its imports, or one of its local functions, where it
/// has its code (0 where it has none), its type's entry preamble (0 where
/// there is none), its module's context, and the importer's type id for the
/// import's type (0 where there is none).
pub fn imported_function_target(
    index_in_imported_module: u32,
    imported_module_resolutions: &[ImportedFunction],
    local_function_ptr: Option<usize>,
    local_preamble_ptr: Option<usize>,
    imported_opaque_ptr: usize,
    type_id: Option<u32>,
    local_has_host_func: bool,
) -> (res: ImportedFunction)
    ensures
        (index_in_imported_module as nat) < imported_module_resolutions@.len() ==> res
            == imported_module_resolutions@[index_in_imported_module as int],
        (index_in_imported_module as nat) >= imported_module_resolutions@.len() ==> res == (ImportedFunction {
            executable_ptr: or_zero(local_function_ptr),
            preamble_executable_ptr: or_zero(local_preamble_ptr),
            module_context_ptr: imported_opaque_ptr,
            type_id: match type_id {
                Some(t) => t,
                None => 0,
            },
            has_host_func: local_has_host_func,
        }),
{
    if (index_in_imported_module as usize) < imported_module_resolutions.len() {
        return imported_module_resolutions[index_in_imported_module as usize];
    }
    ImportedFunction {
        executable_ptr: unwrap_or_zero(local_function_ptr),
        preamble_executable_ptr: unwrap_or_zero(local_preamble_ptr),
        module_context_ptr: imported_opaque_ptr,
        type_id: match type_id {
            Some(t) => t,
            None => 0,
        },
        has_host_func: local_has_host_func,
    }
}

/// Writes a resolved import's function instance into the module context:
/// its code address, its module context and its type id, at their offsets.
pub fn write_imported_function(
    opaque: &mut [u8],
    executable_offset: usize,
    module_context_offset: usize,
    type_id_offset: usize,
    target: ImportedFunction,
)
    requires
        executable_offset + 8 <= old(opaque)@.len(),
        module_context_offset + 8 <= old(opaque)@.len(),
        type_id_offset + 8 <= old(opaque)@.len(),
    ensures
        final(opaque)@ == with_u64_at(
            with_u64_at(
                with_u64_at(old(opaque)@, executable_offset as int, target.executable_ptr as u64),
                module_context_offset as int,
                target.module_context_ptr as u64,
            ),
            type_id_offset as int,
            target.type_id as u64,
        ),
{
    write_u64(opaque, executable_offset, target.executable_ptr as u64);
    write_u64(opaque, module_context_offset, target.module_context_ptr as u64);
    write_u64(opaque, type_id_offset, target.type_id as u64);
}

/// Writes an imported memory into the module context: the memory's address
/// and the exporting module's context, when the context has a region for it
/// and the exporting module has a memory.
pub fn resolve_imported_memory(opaque: &mut [u8], imported_memory_begin: i32, memory: Option<(u64, u64)>)
    requires
        imported_memory_begin >= 0 && memory is Some ==> imported_memory_begin + 16 <= old(opaque)@.len(),
    ensures
        imported_memory_begin >= 0 ==> final(opaque)@ == with_memory(old(opaque)@, imported_memory_begin as int, memory),
        imported_memory_begin < 0 ==> final(opaque)@ == old(opaque)@,
{
    if imported_memory_begin < 0 {
        return;
    }
    put_local_memory(opaque, imported_memory_begin as usize, memory);
}

} // verus!
