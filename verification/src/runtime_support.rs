//! Startup of a linked AOT module: whether this runtime can start it, and
//! the module context that its compiled code reads.

use vstd::prelude::*;
use crate::aot::{
    AotCompiledMetadata, AotExecutionContextMetadata, AotModuleContextMetadata,
    AotTargetArchitecture, AotTargetOperatingSystem,
};
use crate::aot::AotFunctionMetadata;
use crate::const_expr::{find_function, first_function_slot, LinkedGlobalValue};
use crate::linker::{architecture_display_name, architecture_display_name_str};
use crate::module_engine::{write_u64, with_u64_at};
use crate::runtime_state::{spec_linked_runtime_plan, build_linked_runtime_plan, linked_plan_error_text};
use crate::text::{push_str, string_of};

verus! {

pub open spec fn unsupported_startup_host_text() -> Seq<char> {
    "linked AOT startup support currently targets Linux/x86_64 and Linux/aarch64 only"@
}

/// Why this runtime cannot start a linked module, if it cannot: it must run
/// on Linux (its architecture given as `host`, `None` for any other host),
/// the module must target it, use this runtime's execution-context layout,
/// and have a plannable runtime state.
pub open spec fn linked_metadata_error(m: AotCompiledMetadata, host: Option<AotTargetArchitecture>) -> Option<
    Seq<char>,
> {
    match host {
        None => Some(unsupported_startup_host_text()),
        Some(a) => if m.target.operating_system != AotTargetOperatingSystem::Linux
            || m.target.architecture != a {
            Some("linked module metadata does not target Linux/"@ + architecture_display_name(a))
        } else if m.execution_context != AotExecutionContextMetadata::spec_current() {
            Some("linked module execution-context ABI does not match this runtime"@)
        } else {
            match spec_linked_runtime_plan(m) {
                Err(e) => Some(linked_plan_error_text(e)),
                Ok(_) => None,
            }
        },
    }
}

pub fn validate_metadata(metadata: &AotCompiledMetadata, host: Option<AotTargetArchitecture>) -> (res:
    Result<(), String>)
    ensures
        match linked_metadata_error(*metadata, host) {
            None => res is Ok,
            Some(t) => res matches Err(s) && s@ == t,
        },
{
    let a = match host {
        None => {
            return Err(string_of("linked AOT startup support currently targets Linux/x86_64 and Linux/aarch64 only"));
        },
        Some(a) => a,
    };
    if metadata.target.operating_system != AotTargetOperatingSystem::Linux
        || metadata.target.architecture != a {
        let mut s = string_of("linked module metadata does not target Linux/");
        push_str(&mut s, architecture_display_name_str(a));
        return Err(s);
    }
    if metadata.execution_context != AotExecutionContextMetadata::current() {
        return Err(string_of("linked module execution-context ABI does not match this runtime"));
    }
    match build_linked_runtime_plan(metadata) {
        Ok(_) => Ok(()),
        Err(e) => Err(e.message()),
    }
}

/// `b` with the globals from the first `k` written at `offset`, sixteen bytes
/// each: low word, then high word.
pub open spec fn with_globals(b: Seq<u8>, offset: int, globals: Seq<LinkedGlobalValue>, k: nat) -> Seq<u8>
    decreases k,
{
    if k == 0 {
        b
    } else {
        let prev = with_globals(b, offset, globals, (k - 1) as nat);
        let at = offset + 16 * (k - 1);
        with_u64_at(with_u64_at(prev, at, globals[k - 1].value_lo), at + 8, globals[k - 1].value_hi)
    }
}

/// `b` with the first `k` table addresses written at `offset`, eight bytes each.
pub open spec fn with_tables(b: Seq<u8>, offset: int, tables: Seq<usize>, k: nat) -> Seq<u8>
    decreases k,
{
    if k == 0 {
        b
    } else {
        with_u64_at(with_tables(b, offset, tables, (k - 1) as nat), offset + 8 * (k - 1), tables[k - 1] as u64)
    }
}

/// Whether every region that the context describes fits in `len` bytes.
pub open spec fn context_fits(
    ctx: AotModuleContextMetadata,
    global_count: nat,
    has_type_ids: bool,
    table_count: nat,
    len: nat,
) -> bool {
    &&& ctx.local_memory_begin >= 0 ==> ctx.local_memory_begin + 16 <= len
    &&& ctx.globals_begin >= 0 ==> ctx.globals_begin + 16 * global_count <= len
    &&& ctx.type_ids_1st_element >= 0 && has_type_ids ==> ctx.type_ids_1st_element + 8 <= len
    &&& ctx.tables_begin >= 0 ==> ctx.tables_begin + 8 * table_count <= len
}

/// The module context after initialization: the memory's address and length,
/// the globals, the type-id array's address and the tables' addresses, each
/// at its region's offset when the region is present.
pub open spec fn initialized_context(
    ctx: AotModuleContextMetadata,
    memory: Option<(usize, usize)>,
    globals: Seq<LinkedGlobalValue>,
    type_ids: Option<usize>,
    tables: Seq<usize>,
    b: Seq<u8>,
) -> Seq<u8> {
    let (base, len) = match memory {
        Some((base, len)) => (base, len),
        None => (0usize, 0usize),
    };
    let b1 = if ctx.local_memory_begin >= 0 {
        with_u64_at(
            with_u64_at(b, ctx.local_memory_begin as int, base as u64),
            ctx.local_memory_begin + 8,
            len as u64,
        )
    } else {
        b
    };
    let b2 = if ctx.globals_begin >= 0 {
        with_globals(b1, ctx.globals_begin as int, globals, globals.len())
    } else {
        b1
    };
    let b3 = match type_ids {
        Some(addr) => if ctx.type_ids_1st_element >= 0 {
            with_u64_at(b2, ctx.type_ids_1st_element as int, addr as u64)
        } else {
            b2
        },
        None => b2,
    };
    if ctx.tables_begin >= 0 {
        with_tables(b3, ctx.tables_begin as int, tables, tables.len())
    } else {
        b3
    }
}

/// Writes the runtime state's addresses and global values into a module
/// context. `memory` is the memory's address (0 when it has no bytes) and
/// length, `type_ids` the address of the type-id array when it is not empty,
/// and `tables` the address of each table.
pub fn initialize_module_context(
    ctx: &AotModuleContextMetadata,
    memory: Option<(usize, usize)>,
    globals: &[LinkedGlobalValue],
    type_ids: Option<usize>,
    tables: &[usize],
    bytes: &mut [u8],
)
    requires
        context_fits(*ctx, globals@.len(), type_ids is Some, tables@.len(), old(bytes)@.len()),
    ensures
        final(bytes)@ == initialized_context(*ctx, memory, globals@, type_ids, tables@, old(bytes)@),
{
    let ghost b0 = bytes@;
    let len = bytes.len();
    if ctx.local_memory_begin >= 0 {
        let offset = ctx.local_memory_begin as usize;
        let (base, mem_len) = match memory {
            Some((base, mem_len)) => (base, mem_len),
            None => (0usize, 0usize),
        };
        write_u64(bytes, offset, base as u64);
        write_u64(bytes, offset + 8, mem_len as u64);
    }
    let ghost b1 = bytes@;
    if ctx.globals_begin >= 0 {
        let start = ctx.globals_begin as usize;
        let n = globals.len();
        let mut i: usize = 0;
        while i < n
            invariant
                n == globals@.len(),
                len == bytes@.len(),
                start + 16 * n <= len,
                start == ctx.globals_begin,
                i <= n,
                bytes@ == with_globals(b1, start as int, globals@, i as nat),
            decreases n - i,
        {
            let at = start + 16 * i;
            write_u64(bytes, at, globals[i].value_lo);
            write_u64(bytes, at + 8, globals[i].value_hi);
            i = i + 1;
        }
    }
    let ghost b2 = bytes@;
    match type_ids {
        Some(addr) => if ctx.type_ids_1st_element >= 0 {
            write_u64(bytes, ctx.type_ids_1st_element as usize, addr as u64);
        },
        None => {},
    }
    let ghost b3 = bytes@;
    if ctx.tables_begin >= 0 {
        let start = ctx.tables_begin as usize;
        let n = tables.len();
        let mut i: usize = 0;
        while i < n
            invariant
                n == tables@.len(),
                len == bytes@.len(),
                start + 8 * n <= len,
                start == ctx.tables_begin,
                i <= n,
                bytes@ == with_tables(b3, start as int, tables@, i as nat),
            decreases n - i,
        {
            write_u64(bytes, start + 8 * i, tables[i] as u64);
            i = i + 1;
        }
    }
}

/// A local function as the compiled code of a linked module calls it: where
/// its code is, the module context it runs with, and its type.
#[derive(Clone, Copy, Debug, PartialEq, Eq)]
pub struct LinkedFunctionInstance {
    pub executable_ptr: usize,
    pub module_context_ptr: usize,
    pub type_id: u32,
    pub reserved: u32,
}

/// Whether every local function's code lies at an address: its offset
/// added to the text base fits a `usize`.
pub open spec fn functions_fit(functions: Seq<AotFunctionMetadata>, text_base: usize) -> bool {
    forall|i: int| 0 <= i < functions.len() ==> text_base + #[trigger] functions[i].executable_offset <= usize::MAX
}

/// The function instances of a linked module, one per local function in
/// order: its code at the text base plus its offset, the module's context,
/// and its type index as its type id.
pub fn linked_function_instances(functions: &[AotFunctionMetadata], text_base: usize, module_context_ptr: usize) -> (res:
    Vec<LinkedFunctionInstance>)
    requires
        functions_fit(functions@, text_base),
    ensures
        res@.len() == functions@.len(),
        forall|i: int|
            0 <= i < functions@.len() ==> #[trigger] res@[i] == (LinkedFunctionInstance {
                executable_ptr: (text_base + functions@[i].executable_offset) as usize,
                module_context_ptr,
                type_id: functions@[i].type_index,
                reserved: 0,
            }),
{
    let n = functions.len();
    let mut out: Vec<LinkedFunctionInstance> = Vec::with_capacity(n);
    let mut i: usize = 0;
    while i < n
        invariant
            n == functions@.len(),
            functions_fit(functions@, text_base),
            i <= n,
            out@.len() == i,
            forall|j: int|
                0 <= j < i ==> #[trigger] out@[j] == (LinkedFunctionInstance {
                    executable_ptr: (text_base + functions@[j].executable_offset) as usize,
                    module_context_ptr,
                    type_id: functions@[j].type_index,
                    reserved: 0,
                }),
        decreases n - i,
    {
        let f = &functions[i];
        assert(text_base + functions@[i as int].executable_offset <= usize::MAX);
        out.push(
            LinkedFunctionInstance {
                executable_ptr: text_base + f.executable_offset,
                module_context_ptr,
                type_id: f.type_index,
                reserved: 0,
            },
        );
        i = i + 1;
    }
    out
}

/// The function instance that a table element refers to: the slot of the
/// first local function with the element's wasm index; `None` for a null
/// element or an index that no local function has.
pub open spec fn element_slot(functions: Seq<AotFunctionMetadata>, element: Option<u32>) -> Option<nat> {
    match element {
        None => None,
        Some(w) => first_function_slot(functions, w, 0),
    }
}

/// Resolves each element of a table to the slot of its function instance.
pub fn table_element_slots(functions: &[AotFunctionMetadata], elements: &[Option<u32>]) -> (res: Vec<Option<usize>>)
    ensures
        res@.len() == elements@.len(),
        forall|i: int|
            0 <= i < elements@.len() ==> match element_slot(functions@, #[trigger] elements@[i]) {
                None => res@[i] is None,
                Some(s) => res@[i] == Some(s as usize),
            },
{
    let n = elements.len();
    let mut out: Vec<Option<usize>> = Vec::with_capacity(n);
    let mut i: usize = 0;
    while i < n
        invariant
            n == elements@.len(),
            i <= n,
            out@.len() == i,
            forall|j: int|
                0 <= j < i ==> match element_slot(functions@, #[trigger] elements@[j]) {
                    None => out@[j] is None,
                    Some(s) => out@[j] == Some(s as usize),
                },
        decreases n - i,
    {
        let slot = match elements[i] {
            None => None,
            Some(w) => find_function(functions, w),
        };
        out.push(slot);
        i = i + 1;
    }
    out
}

} // verus!
