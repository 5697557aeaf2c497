//! The C sources that native packaging compiles next to the module objects:
//! each module's static runtime state and its initializer, and the C ABI
//! wrappers that enter compiled code through the native entrypoint.

use vstd::prelude::*;
use crate::aot::{AotCompiledMetadata, AotFunctionMetadata, AotFunctionTypeMetadata};
use crate::const_expr::{LinkedGlobalValue, first_function_slot, find_function};
use crate::linker::{
    NativeLinkError, NativePackagingTarget, entrypoint_symbol_text, module_context_text,
    is_c_abi_function_type, function_type_supported, c_type_text, c_type_name, param_pack_text,
    param_pack_source, result_unpack_text, result_unpack_source, cabi_wrapper_symbol_text,
    cabi_wrapper_symbol_name,
    module_context_name, module_init_function_text, module_init_function_name, module_memory_text,
    module_memory_name, table_elements_text, table_elements_name, preamble_symbol_text,
    preamble_symbol_name, comma_hex_bytes_text, comma_hex_bytes, slot_text, bracket_free,
    lemma_result_read_from_slot_zero,
};
use crate::relocation::{linked_symbol_text, linked_wasm_function_symbol_name};
use crate::runtime_state::{
    LinkedRuntimePlan, LinkedRuntimePlanModel, LinkedTablePlan, tables_view, spec_linked_runtime_plan,
    build_linked_runtime_plan, linked_plan_error_text,
};
use crate::text::{push_str, push_decimal, decimal, string_of, contains_text, lemma_contains_middle};
use crate::module_engine::with_u64_at;
use crate::runtime_support::with_globals;

verus! {

/// A module to package: its sanitized name and its AOT metadata.
#[derive(Clone, Debug)]
pub struct ModuleSpec {
    pub sanitized_name: String,
    pub metadata: AotCompiledMetadata,
}

pub open spec fn d(n: int) -> Seq<char> {
    decimal(n as nat)
}

pub open spec fn max1(n: int) -> int {
    if n >= 1 {
        n
    } else {
        1
    }
}

/// `v0u, v1u, ...`.
pub open spec fn type_ids_list(s: Seq<u32>) -> Seq<char>
    decreases s.len(),
{
    if s.len() == 0 {
        seq![]
    } else if s.len() == 1 {
        d(s[0] as int) + "u"@
    } else {
        type_ids_list(s.drop_last()) + ", "@ + d(s.last() as int) + "u"@
    }
}

/// A table entry as a C initializer: the address of the function instance of
/// its function's slot, or `0` for a null entry or a function with no slot.
pub open spec fn table_entry_text(fi: Seq<char>, funcs: Seq<AotFunctionMetadata>, e: Option<u32>) -> Seq<char> {
    match e {
        Some(w) => match first_function_slot(funcs, w, 0) {
            Some(slot) => "(uintptr_t)&"@ + fi + "["@ + d(slot as int) + "]"@,
            None => "0"@,
        },
        None => "0"@,
    }
}

/// The entries of a table, separated by `, `.
pub open spec fn table_entries_text(fi: Seq<char>, funcs: Seq<AotFunctionMetadata>, es: Seq<Option<u32>>) -> Seq<char>
    decreases es.len(),
{
    if es.len() == 0 {
        seq![]
    } else if es.len() == 1 {
        table_entry_text(fi, funcs, es[0])
    } else {
        table_entries_text(fi, funcs, es.drop_last()) + ", "@ + table_entry_text(fi, funcs, es.last())
    }
}

pub open spec fn table_decl_text(n: Seq<char>, fi: Seq<char>, funcs: Seq<AotFunctionMetadata>, k: int, es: Seq<Option<u32>>) -> Seq<char> {
    "static uintptr_t "@ + table_elements_text(n, k as usize) + "["@ + d(max1(es.len() as int)) + "] = {"@
        + (if es.len() == 0 {
        "0"@
    } else {
        table_entries_text(fi, funcs, es)
    }) + "};\n"@
}

/// The declarations of the first `k` tables' element arrays.
pub open spec fn table_decls(n: Seq<char>, fi: Seq<char>, funcs: Seq<AotFunctionMetadata>, tables: Seq<Seq<Option<u32>>>, k: nat) -> Seq<char>
    decreases k,
{
    if k == 0 {
        seq![]
    } else {
        table_decls(n, fi, funcs, tables, (k - 1) as nat) + table_decl_text(n, fi, funcs, k - 1, tables[k - 1])
    }
}

pub open spec fn function_init_text(fi: Seq<char>, ctx: Seq<char>, module_id: Seq<u8>, s: int, f: AotFunctionMetadata) -> Seq<char> {
    "    "@ + fi + "["@ + d(s) + "].executable_ptr = (uintptr_t)&"@ + linked_symbol_text(module_id, f.wasm_function_index)
        + ";\n    "@ + fi + "["@ + d(s) + "].module_context_ptr = (uintptr_t)"@ + ctx + ".bytes;\n    "@ + fi
        + "["@ + d(s) + "].type_id = "@ + d(f.type_index as int) + "u;\n"@
}

/// The initialization of the first `k` function instances.
pub open spec fn function_inits(fi: Seq<char>, ctx: Seq<char>, module_id: Seq<u8>, funcs: Seq<AotFunctionMetadata>, k: nat) -> Seq<char>
    decreases k,
{
    if k == 0 {
        seq![]
    } else {
        function_inits(fi, ctx, module_id, funcs, (k - 1) as nat) + function_init_text(fi, ctx, module_id, k - 1, funcs[k - 1])
    }
}

pub open spec fn table_init_text(n: Seq<char>, tb: Seq<char>, k: int, len: int) -> Seq<char> {
    "    "@ + tb + "["@ + d(k) + "].base_address = "@ + (if len == 0 {
        "NULL"@
    } else {
        table_elements_text(n, k as usize)
    }) + ";\n    "@ + tb + "["@ + d(k) + "].len = "@ + d(len) + "u;\n"@
}

/// The initialization of the first `k` table descriptors.
pub open spec fn table_inits(n: Seq<char>, tb: Seq<char>, tables: Seq<Seq<Option<u32>>>, k: nat) -> Seq<char>
    decreases k,
{
    if k == 0 {
        seq![]
    } else {
        table_inits(n, tb, tables, (k - 1) as nat) + table_init_text(n, tb, k - 1, tables[k - 1].len() as int)
    }
}

pub open spec fn store_text(ctx: Seq<char>, offset: int, value: Seq<char>) -> Seq<char> {
    "    store_u64("@ + ctx + ".bytes, "@ + d(offset) + ", "@ + value + ");\n"@
}

/// The stores of the first `k` globals, sixteen bytes apart from `base`.
pub open spec fn global_stores(ctx: Seq<char>, base: int, globals: Seq<LinkedGlobalValue>, k: nat) -> Seq<char>
    decreases k,
{
    if k == 0 {
        seq![]
    } else {
        let off = base + 16 * (k - 1);
        global_stores(ctx, base, globals, (k - 1) as nat) + store_text(
            ctx,
            off,
            "UINT64_C("@ + d(globals[k - 1].value_lo as int) + ")"@,
        ) + store_text(ctx, off + 8, "UINT64_C("@ + d(globals[k - 1].value_hi as int) + ")"@)
    }
}

/// The stores of the first `k` table descriptor addresses, eight bytes apart
/// from `base`.
pub open spec fn table_stores(ctx: Seq<char>, base: int, tb: Seq<char>, k: nat) -> Seq<char>
    decreases k,
{
    if k == 0 {
        seq![]
    } else {
        table_stores(ctx, base, tb, (k - 1) as nat) + store_text(
            ctx,
            base + 8 * (k - 1),
            "(uint64_t)(uintptr_t)&"@ + tb + "["@ + d(k - 1) + "]"@,
        )
    }
}

#[verifier::opaque]
pub open spec fn ctx_decl_text(n: Seq<char>, m: AotCompiledMetadata) -> Seq<char> {
    "static struct __attribute__((aligned(16))) { unsigned char bytes["@ + d(max1(m.module_context.total_size as int))
        + "]; } "@ + module_context_text(n) + " = {0};\n"@
}

#[verifier::opaque]
pub open spec fn memory_decl_text(n: Seq<char>, plan: LinkedRuntimePlanModel) -> Seq<char> {
    match plan.memory_bytes {
        Some(b) => "static unsigned char "@ + module_memory_text(n) + "["@ + d(max1(b.len() as int)) + "] = {"@
            + comma_hex_bytes_text(b) + "};\n"@,
        None => seq![],
    }
}

#[verifier::opaque]
pub open spec fn type_ids_decl_text(n: Seq<char>, plan: LinkedRuntimePlanModel) -> Seq<char> {
    if plan.type_ids.len() > 0 {
        "static const uint32_t "@ + n + "_type_ids["@ + d(plan.type_ids.len() as int) + "] = {"@
            + type_ids_list(plan.type_ids) + "};\n"@
    } else {
        seq![]
    }
}

#[verifier::opaque]
pub open spec fn instances_decl_text(n: Seq<char>, m: AotCompiledMetadata) -> Seq<char> {
    "static razero_link_function_instance_t "@ + n + "_function_instances["@ + d(max1(m.functions@.len() as int))
        + "] = {0};\n"@
}

#[verifier::opaque]
pub open spec fn tables_decl_text(n: Seq<char>, plan: LinkedRuntimePlanModel) -> Seq<char> {
    "static razero_link_table_t "@ + n + "_tables["@ + d(max1(plan.tables.len() as int)) + "] = {0};\n"@
        + "static int "@ + n + "_initialized = 0;\n"@
}

/// The declarations of a module's static runtime state: its module context,
/// its memory with the initial bytes, its type ids, its function instances,
/// its tables' element arrays and descriptors, and its initialized flag.
pub open spec fn runtime_decls_text(n: Seq<char>, m: AotCompiledMetadata, plan: LinkedRuntimePlanModel) -> Seq<char> {
    ctx_decl_text(n, m) + memory_decl_text(n, plan) + type_ids_decl_text(n, plan) + instances_decl_text(n, m)
        + table_decls(n, n + "_function_instances"@, m.functions@, plan.tables, plan.tables.len())
        + tables_decl_text(n, plan)
}

#[verifier::opaque]
pub open spec fn init_header_text(n: Seq<char>) -> Seq<char> {
    "static void "@ + module_init_function_text(n) + "(void) {\n"@ + "    if ("@ + n + "_initialized) return;\n"@
        + "    "@ + n + "_initialized = 1;\n"@
}

#[verifier::opaque]
pub open spec fn memory_store_text(n: Seq<char>, m: AotCompiledMetadata, plan: LinkedRuntimePlanModel) -> Seq<char> {
    let ctx = module_context_text(n);
    let mc = m.module_context;
    if mc.local_memory_begin >= 0 {
        store_text(
            ctx,
            mc.local_memory_begin as int,
            match plan.memory_bytes {
                Some(_) => "(uint64_t)(uintptr_t)"@ + module_memory_text(n),
                None => "0"@,
            },
        ) + store_text(
            ctx,
            mc.local_memory_begin + 8,
            "(uint64_t)"@ + d(
                match plan.memory_bytes {
                    Some(b) => b.len() as int,
                    None => 0,
                },
            ),
        )
    } else {
        seq![]
    }
}

#[verifier::opaque]
pub open spec fn globals_store_text(n: Seq<char>, m: AotCompiledMetadata, plan: LinkedRuntimePlanModel) -> Seq<char> {
    if m.module_context.globals_begin >= 0 {
        global_stores(module_context_text(n), m.module_context.globals_begin as int, plan.globals, plan.globals.len())
    } else {
        seq![]
    }
}

#[verifier::opaque]
pub open spec fn type_ids_store_text(n: Seq<char>, m: AotCompiledMetadata, plan: LinkedRuntimePlanModel) -> Seq<char> {
    if m.module_context.type_ids_1st_element >= 0 && plan.type_ids.len() > 0 {
        store_text(
            module_context_text(n),
            m.module_context.type_ids_1st_element as int,
            "(uint64_t)(uintptr_t)"@ + n + "_type_ids"@,
        )
    } else {
        seq![]
    }
}

#[verifier::opaque]
pub open spec fn tables_store_text(n: Seq<char>, m: AotCompiledMetadata, plan: LinkedRuntimePlanModel) -> Seq<char> {
    if m.module_context.tables_begin >= 0 {
        table_stores(module_context_text(n), m.module_context.tables_begin as int, n + "_tables"@, plan.tables.len())
    } else {
        seq![]
    }
}

/// The body of a module's initializer up to its start call: it runs once,
/// fills the function instances and table descriptors, and stores the
/// memory's address and length, the globals, the type ids' address and the
/// table descriptors' addresses in the module context where those regions
/// are present.
pub open spec fn runtime_init_text(n: Seq<char>, m: AotCompiledMetadata, plan: LinkedRuntimePlanModel) -> Seq<char> {
    init_header_text(n) + function_inits(
        n + "_function_instances"@,
        module_context_text(n),
        m.module_id@,
        m.functions@,
        m.functions@.len(),
    ) + table_inits(n, n + "_tables"@, plan.tables, plan.tables.len()) + memory_store_text(n, m, plan)
        + globals_store_text(n, m, plan) + type_ids_store_text(n, m, plan) + tables_store_text(n, m, plan)
}

pub open spec fn start_call_text(n: Seq<char>, m: AotCompiledMetadata, entry: Seq<char>, start: u32, type_index: u32) -> Seq<char> {
    "    {\n        uint64_t param_result[1] = {0};\n        razero_link_exec_ctx_t execution_context = {{0}};\n        uint64_t go_stack[4096] = {0};\n        "@
        + entry + "("@ + preamble_symbol_text(n, type_index) + ", (const unsigned char*)&"@ + linked_symbol_text(
        m.module_id@,
        start,
    ) + ", (uintptr_t)&execution_context, "@ + module_context_text(n)
        + ".bytes, param_result, (uintptr_t)go_stack);\n    }\n"@
}

/// The C source of a module's static runtime state and its initializer,
/// which fills the function instances, table descriptors and module context
/// and runs the start function; the start function must be a local one.
pub open spec fn module_runtime_source_text(
    n: Seq<char>,
    m: AotCompiledMetadata,
    plan: LinkedRuntimePlanModel,
    entry: Seq<char>,
) -> Result<Seq<char>, Seq<char>> {
    let body = runtime_decls_text(n, m, plan) + runtime_init_text(n, m, plan);
    match m.start_function_index {
        None => Ok(body + "}\n\n"@),
        Some(start) => match first_function_slot(m.functions@, start, 0) {
            None => Err("start function metadata is missing"@),
            Some(slot) => Ok(
                body + start_call_text(n, m, entry, start, m.functions@[slot as int].type_index)
                    + "}\n\n"@,
            ),
        },
    }
}

/// Whether the module context's offsets, and the regions at them, stay
/// within `i32`.
pub open spec fn context_offsets_fit(m: AotCompiledMetadata, plan: LinkedRuntimePlanModel) -> bool {
    let mc = m.module_context;
    &&& mc.local_memory_begin + 8 <= i32::MAX
    &&& mc.globals_begin >= 0 ==> mc.globals_begin + 16 * plan.globals.len() <= i32::MAX
    &&& mc.tables_begin >= 0 ==> mc.tables_begin + 8 * plan.tables.len() <= i32::MAX
}

// --- what the initializer's global stores do --------------------------------

/// The C statements that store the 64-bit words of `writes`, in order, into
/// the bytes of the module context `ctx`, each written as a `UINT64_C`
/// decimal literal.
pub open spec fn u64_stores_text(ctx: Seq<char>, writes: Seq<(int, u64)>) -> Seq<char>
    decreases writes.len(),
{
    if writes.len() == 0 {
        seq![]
    } else {
        u64_stores_text(ctx, writes.drop_last()) + store_text(
            ctx,
            writes.last().0,
            "UINT64_C("@ + d(writes.last().1 as int) + ")"@,
        )
    }
}

/// The bytes `b` after the 64-bit words of `writes` are stored, in order,
/// each little-endian at its offset.
pub open spec fn apply_writes(b: Seq<u8>, writes: Seq<(int, u64)>) -> Seq<u8>
    decreases writes.len(),
{
    if writes.len() == 0 {
        b
    } else {
        with_u64_at(apply_writes(b, writes.drop_last()), writes.last().0, writes.last().1)
    }
}

spec fn global_writes(base: int, globals: Seq<LinkedGlobalValue>, k: nat) -> Seq<(int, u64)>
    decreases k,
{
    if k == 0 {
        seq![]
    } else {
        let off = base + 16 * (k - 1);
        global_writes(base, globals, (k - 1) as nat).push((off, globals[k - 1].value_lo)).push(
            (off + 8, globals[k - 1].value_hi),
        )
    }
}

proof fn lemma_global_writes(ctx: Seq<char>, base: int, globals: Seq<LinkedGlobalValue>, k: nat)
    requires
        k <= globals.len(),
    ensures
        global_stores(ctx, base, globals, k) == u64_stores_text(ctx, global_writes(base, globals, k)),
        forall|b: Seq<u8>| #[trigger] apply_writes(b, global_writes(base, globals, k)) == with_globals(b, base, globals, k),
    decreases k,
{
    if k > 0 {
        lemma_global_writes(ctx, base, globals, (k - 1) as nat);
        let prev = global_writes(base, globals, (k - 1) as nat);
        let off = base + 16 * (k - 1);
        let mid = prev.push((off, globals[k - 1].value_lo));
        let w = mid.push((off + 8, globals[k - 1].value_hi));
        assert(w.drop_last() =~= mid);
        assert(mid.drop_last() =~= prev);
        let lo = store_text(ctx, off, "UINT64_C("@ + d(globals[k - 1].value_lo as int) + ")"@);
        let hi = store_text(ctx, off + 8, "UINT64_C("@ + d(globals[k - 1].value_hi as int) + ")"@);
        assert(u64_stores_text(ctx, mid) == u64_stores_text(ctx, prev) + lo);
        assert(u64_stores_text(ctx, w) == u64_stores_text(ctx, mid) + hi);
        assert(global_stores(ctx, base, globals, k) == global_stores(ctx, base, globals, (k - 1) as nat) + lo + hi);
        assert(global_stores(ctx, base, globals, k) =~= u64_stores_text(ctx, w));
        assert forall|b: Seq<u8>| #[trigger] apply_writes(b, global_writes(base, globals, k)) == with_globals(
            b,
            base,
            globals,
            k,
        ) by {
            assert(apply_writes(b, mid) == with_u64_at(apply_writes(b, prev), off, globals[k - 1].value_lo));
        }
    }
}

/// A module's initializer stores its globals as 64-bit words into its module
/// context: run on any context bytes, those stores leave the globals laid out
/// as `with_globals` lays them out for the runtime (each global's low word at
/// `globals_begin + 16 * k`, its high word eight bytes after). The source of
/// the module holds these stores.
pub proof fn lemma_initializer_stores_globals(
    n: Seq<char>,
    m: AotCompiledMetadata,
    plan: LinkedRuntimePlanModel,
    entry: Seq<char>,
)
    requires
        m.module_context.globals_begin >= 0,
    ensures
        exists|writes: Seq<(int, u64)>|
            {
                &&& globals_store_text(n, m, plan) == u64_stores_text(module_context_text(n), writes)
                &&& forall|b: Seq<u8>| #[trigger] apply_writes(b, writes) == with_globals(
                    b,
                    m.module_context.globals_begin as int,
                    plan.globals,
                    plan.globals.len(),
                )
            },
        module_runtime_source_text(n, m, plan, entry) matches Ok(src) ==> exists|pre: Seq<char>, post: Seq<char>|
            src == pre + globals_store_text(n, m, plan) + post,
{
    reveal(globals_store_text);
    let base = m.module_context.globals_begin as int;
    let w = global_writes(base, plan.globals, plan.globals.len());
    lemma_global_writes(module_context_text(n), base, plan.globals, plan.globals.len());
    assert(globals_store_text(n, m, plan) == u64_stores_text(module_context_text(n), w));
    lemma_runtime_source_holds_globals(n, m, plan, entry);
}

proof fn lemma_runtime_source_holds_globals(
    n: Seq<char>,
    m: AotCompiledMetadata,
    plan: LinkedRuntimePlanModel,
    entry: Seq<char>,
)
    ensures
        module_runtime_source_text(n, m, plan, entry) matches Ok(src) ==> exists|pre: Seq<char>, post: Seq<char>|
            src == pre + globals_store_text(n, m, plan) + post,
{
    let g = globals_store_text(n, m, plan);
    let head = init_header_text(n) + function_inits(
        n + "_function_instances"@,
        module_context_text(n),
        m.module_id@,
        m.functions@,
        m.functions@.len(),
    ) + table_inits(n, n + "_tables"@, plan.tables, plan.tables.len()) + memory_store_text(n, m, plan);
    let rest = type_ids_store_text(n, m, plan) + tables_store_text(n, m, plan);
    let decls = runtime_decls_text(n, m, plan);
    let init = runtime_init_text(n, m, plan);
    assert(init == head + g + rest);
    let pre = decls + head;
    assert(decls + init =~= pre + g + rest);
    match module_runtime_source_text(n, m, plan, entry) {
        Ok(src) => {
            match m.start_function_index {
                None => {
                    assert(src == (decls + init) + "}\n\n"@);
                    assert(src =~= pre + g + (rest + "}\n\n"@));
                },
                Some(start) => {
                    let slot = first_function_slot(m.functions@, start, 0)->0;
                    let call = start_call_text(n, m, entry, start, m.functions@[slot as int].type_index);
                    assert(src == (decls + init) + call + "}\n\n"@);
                    assert(src =~= pre + g + (rest + call + "}\n\n"@));
                },
            }
        },
        Err(_) => {},
    }
}

fn push_int(s: &mut String, n: u64)
    ensures
        final(s)@ == old(s)@ + d(n as int),
{
    push_decimal(s, n);
}

fn push_type_ids(s: &mut String, ids: &Vec<u32>)
    requires
        ids@.len() > 0,
    ensures
        final(s)@ == old(s)@ + type_ids_list(ids@),
{
    let ghost start = s@;
    push_int(s, ids[0] as u64);
    push_str(s, "u");
    assert(ids@.take(1).len() == 1);
    assert(s@ =~= start + type_ids_list(ids@.take(1)));
    let n = ids.len();
    let mut i: usize = 1;
    while i < n
        invariant
            n == ids@.len(),
            1 <= i <= n,
            s@ == start + type_ids_list(ids@.take(i as int)),
        decreases n - i,
    {
        push_str(s, ", ");
        push_int(s, ids[i] as u64);
        push_str(s, "u");
        assert(ids@.take(i + 1).drop_last() =~= ids@.take(i as int));
        assert(s@ =~= start + type_ids_list(ids@.take(i + 1)));
        i = i + 1;
    }
    assert(ids@.take(n as int) =~= ids@);
}

fn push_table_entry(s: &mut String, fi: &str, funcs: &Vec<AotFunctionMetadata>, e: Option<u32>)
    ensures
        final(s)@ == old(s)@ + table_entry_text(fi@, funcs@, e),
{
    match e {
        Some(w) => match find_function(funcs.as_slice(), w) {
            Some(slot) => {
                push_str(s, "(uintptr_t)&");
                push_str(s, fi);
                push_str(s, "[");
                push_int(s, slot as u64);
                push_str(s, "]");
                assert(s@ =~= old(s)@ + table_entry_text(fi@, funcs@, e));
            },
            None => push_str(s, "0"),
        },
        None => push_str(s, "0"),
    }
}

fn push_table_entries(s: &mut String, fi: &str, funcs: &Vec<AotFunctionMetadata>, es: &Vec<Option<u32>>)
    requires
        es@.len() > 0,
    ensures
        final(s)@ == old(s)@ + table_entries_text(fi@, funcs@, es@),
{
    let ghost start = s@;
    push_table_entry(s, fi, funcs, es[0]);
    assert(es@.take(1).len() == 1);
    assert(s@ =~= start + table_entries_text(fi@, funcs@, es@.take(1)));
    let n = es.len();
    let mut i: usize = 1;
    while i < n
        invariant
            n == es@.len(),
            1 <= i <= n,
            s@ == start + table_entries_text(fi@, funcs@, es@.take(i as int)),
        decreases n - i,
    {
        push_str(s, ", ");
        push_table_entry(s, fi, funcs, es[i]);
        assert(es@.take(i + 1).drop_last() =~= es@.take(i as int));
        assert(s@ =~= start + table_entries_text(fi@, funcs@, es@.take(i + 1)));
        i = i + 1;
    }
    assert(es@.take(n as int) =~= es@);
}

fn push_store(s: &mut String, ctx: &str, offset: u64, value: &str)
    ensures
        final(s)@ == old(s)@ + store_text(ctx@, offset as int, value@),
{
    push_str(s, "    store_u64(");
    push_str(s, ctx);
    push_str(s, ".bytes, ");
    push_int(s, offset);
    push_str(s, ", ");
    push_str(s, value);
    push_str(s, ");\n");
    assert(s@ =~= old(s)@ + store_text(ctx@, offset as int, value@));
}

fn push_ctx_decl(s: &mut String, n: &str, m: &AotCompiledMetadata)
    ensures
        final(s)@ == old(s)@ + ctx_decl_text(n@, *m),
{
    reveal(ctx_decl_text);
    let ctx = module_context_name(n);
    push_str(s, "static struct __attribute__((aligned(16))) { unsigned char bytes[");
    let total = if m.module_context.total_size >= 1 {
        m.module_context.total_size
    } else {
        1
    };
    push_int(s, total as u64);
    push_str(s, "]; } ");
    push_str(s, ctx.as_str());
    push_str(s, " = {0};\n");
    assert(s@ =~= old(s)@ + ctx_decl_text(n@, *m));
}

fn push_memory_decl(s: &mut String, n: &str, plan: &LinkedRuntimePlan)
    ensures
        final(s)@ == old(s)@ + memory_decl_text(n@, plan@),
{
    reveal(memory_decl_text);
    match &plan.memory_bytes {
        Some(b) => {
            push_str(s, "static unsigned char ");
            let mem = module_memory_name(n);
            push_str(s, mem.as_str());
            push_str(s, "[");
            let len = if b.len() >= 1 {
                b.len()
            } else {
                1
            };
            push_int(s, len as u64);
            push_str(s, "] = {");
            let bytes = comma_hex_bytes(b.as_slice());
            push_str(s, bytes.as_str());
            push_str(s, "};\n");
            assert(s@ =~= old(s)@ + memory_decl_text(n@, plan@));
        },
        None => {
            assert(s@ =~= old(s)@ + memory_decl_text(n@, plan@));
        },
    }
}

fn push_type_ids_decl(s: &mut String, n: &str, plan: &LinkedRuntimePlan)
    ensures
        final(s)@ == old(s)@ + type_ids_decl_text(n@, plan@),
{
    reveal(type_ids_decl_text);
    if plan.type_ids.len() > 0 {
        push_str(s, "static const uint32_t ");
        push_str(s, n);
        push_str(s, "_type_ids[");
        push_int(s, plan.type_ids.len() as u64);
        push_str(s, "] = {");
        push_type_ids(s, &plan.type_ids);
        push_str(s, "};\n");
    }
    assert(s@ =~= old(s)@ + type_ids_decl_text(n@, plan@));
}

fn push_instances_decl(s: &mut String, n: &str, m: &AotCompiledMetadata)
    ensures
        final(s)@ == old(s)@ + instances_decl_text(n@, *m),
{
    reveal(instances_decl_text);
    push_str(s, "static razero_link_function_instance_t ");
    push_str(s, n);
    push_str(s, "_function_instances[");
    let nf = if m.functions.len() >= 1 {
        m.functions.len()
    } else {
        1
    };
    push_int(s, nf as u64);
    push_str(s, "] = {0};\n");
    assert(s@ =~= old(s)@ + instances_decl_text(n@, *m));
}

fn push_table_decl(s: &mut String, n: &str, fi: &str, funcs: &Vec<AotFunctionMetadata>, k: usize, es: &Vec<Option<u32>>)
    ensures
        final(s)@ == old(s)@ + table_decl_text(n@, fi@, funcs@, k as int, es@),
{
    push_str(s, "static uintptr_t ");
    let te = table_elements_name(n, k);
    push_str(s, te.as_str());
    push_str(s, "[");
    let len = if es.len() >= 1 {
        es.len()
    } else {
        1
    };
    push_int(s, len as u64);
    push_str(s, "] = {");
    if es.len() == 0 {
        push_str(s, "0");
    } else {
        push_table_entries(s, fi, funcs, es);
    }
    push_str(s, "};\n");
    assert(s@ =~= old(s)@ + table_decl_text(n@, fi@, funcs@, k as int, es@));
}

fn push_table_decls(s: &mut String, n: &str, m: &AotCompiledMetadata, plan: &LinkedRuntimePlan)
    ensures
        final(s)@ == old(s)@ + table_decls(
            n@,
            n@ + "_function_instances"@,
            m.functions@,
            plan@.tables,
            plan@.tables.len(),
        ),
{
    let ghost start = s@;
    let mut fi = string_of(n);
    push_str(&mut fi, "_function_instances");
    let nt = plan.tables.len();
    let mut k: usize = 0;
    while k < nt
        invariant
            nt == plan.tables@.len(),
            k <= nt,
            fi@ == n@ + "_function_instances"@,
            s@ == start + table_decls(n@, fi@, m.functions@, tables_view(plan.tables@), k as nat),
        decreases nt - k,
    {
        let es = &plan.tables[k].elements;
        push_table_decl(s, n, fi.as_str(), &m.functions, k, es);
        assert(tables_view(plan.tables@)[k as int] == es@);
        assert(s@ =~= start + table_decls(n@, fi@, m.functions@, tables_view(plan.tables@), (k + 1) as nat));
        k = k + 1;
    }
}

fn push_tables_decl(s: &mut String, n: &str, plan: &LinkedRuntimePlan)
    ensures
        final(s)@ == old(s)@ + tables_decl_text(n@, plan@),
{
    reveal(tables_decl_text);
    push_str(s, "static razero_link_table_t ");
    push_str(s, n);
    push_str(s, "_tables[");
    let nt = if plan.tables.len() >= 1 {
        plan.tables.len()
    } else {
        1
    };
    push_int(s, nt as u64);
    push_str(s, "] = {0};\n");
    push_str(s, "static int ");
    push_str(s, n);
    push_str(s, "_initialized = 0;\n");
    assert(s@ =~= old(s)@ + tables_decl_text(n@, plan@));
}

fn push_runtime_decls(s: &mut String, n: &str, m: &AotCompiledMetadata, plan: &LinkedRuntimePlan)
    ensures
        final(s)@ == old(s)@ + runtime_decls_text(n@, *m, plan@),
{
    let ghost start = s@;
    push_ctx_decl(s, n, m);
    push_memory_decl(s, n, plan);
    push_type_ids_decl(s, n, plan);
    push_instances_decl(s, n, m);
    push_table_decls(s, n, m, plan);
    push_tables_decl(s, n, plan);
    assert(s@ =~= start + runtime_decls_text(n@, *m, plan@));
}

fn push_init_header(s: &mut String, n: &str)
    ensures
        final(s)@ == old(s)@ + init_header_text(n@),
{
    reveal(init_header_text);
    push_str(s, "static void ");
    let init = module_init_function_name(n);
    push_str(s, init.as_str());
    push_str(s, "(void) {\n");
    push_str(s, "    if (");
    push_str(s, n);
    push_str(s, "_initialized) return;\n");
    push_str(s, "    ");
    push_str(s, n);
    push_str(s, "_initialized = 1;\n");
    assert(s@ =~= old(s)@ + init_header_text(n@));
}

fn push_function_init(s: &mut String, fi: &str, ctx: &str, module_id: &[u8; 32], slot: usize, f: &AotFunctionMetadata)
    ensures
        final(s)@ == old(s)@ + function_init_text(fi@, ctx@, module_id@, slot as int, *f),
{
    let raw = linked_wasm_function_symbol_name(module_id, f.wasm_function_index);
    push_str(s, "    ");
    push_str(s, fi);
    push_str(s, "[");
    push_int(s, slot as u64);
    push_str(s, "].executable_ptr = (uintptr_t)&");
    push_str(s, raw.as_str());
    push_str(s, ";\n    ");
    push_str(s, fi);
    push_str(s, "[");
    push_int(s, slot as u64);
    push_str(s, "].module_context_ptr = (uintptr_t)");
    push_str(s, ctx);
    push_str(s, ".bytes;\n    ");
    push_str(s, fi);
    push_str(s, "[");
    push_int(s, slot as u64);
    push_str(s, "].type_id = ");
    push_int(s, f.type_index as u64);
    push_str(s, "u;\n");
    assert(s@ =~= old(s)@ + function_init_text(fi@, ctx@, module_id@, slot as int, *f));
}

fn push_function_inits(s: &mut String, n: &str, m: &AotCompiledMetadata)
    ensures
        final(s)@ == old(s)@ + function_inits(
            n@ + "_function_instances"@,
            module_context_text(n@),
            m.module_id@,
            m.functions@,
            m.functions@.len(),
        ),
{
    let ghost start = s@;
    let mut fi = string_of(n);
    push_str(&mut fi, "_function_instances");
    let ctx = module_context_name(n);
    let nf = m.functions.len();
    let mut k: usize = 0;
    while k < nf
        invariant
            nf == m.functions@.len(),
            k <= nf,
            fi@ == n@ + "_function_instances"@,
            ctx@ == module_context_text(n@),
            s@ == start + function_inits(fi@, ctx@, m.module_id@, m.functions@, k as nat),
        decreases nf - k,
    {
        push_function_init(s, fi.as_str(), ctx.as_str(), &m.module_id, k, &m.functions[k]);
        k = k + 1;
    }
}

fn push_table_init(s: &mut String, n: &str, tb: &str, k: usize, len: usize)
    ensures
        final(s)@ == old(s)@ + table_init_text(n@, tb@, k as int, len as int),
{
    push_str(s, "    ");
    push_str(s, tb);
    push_str(s, "[");
    push_int(s, k as u64);
    push_str(s, "].base_address = ");
    if len == 0 {
        push_str(s, "NULL");
    } else {
        let te = table_elements_name(n, k);
        push_str(s, te.as_str());
    }
    push_str(s, ";\n    ");
    push_str(s, tb);
    push_str(s, "[");
    push_int(s, k as u64);
    push_str(s, "].len = ");
    push_int(s, len as u64);
    push_str(s, "u;\n");
    assert(s@ =~= old(s)@ + table_init_text(n@, tb@, k as int, len as int));
}

fn push_table_inits(s: &mut String, n: &str, plan: &LinkedRuntimePlan)
    ensures
        final(s)@ == old(s)@ + table_inits(n@, n@ + "_tables"@, plan@.tables, plan@.tables.len()),
{
    let ghost start = s@;
    let mut tb = string_of(n);
    push_str(&mut tb, "_tables");
    let nt = plan.tables.len();
    let mut k: usize = 0;
    while k < nt
        invariant
            nt == plan.tables@.len(),
            k <= nt,
            tb@ == n@ + "_tables"@,
            s@ == start + table_inits(n@, tb@, tables_view(plan.tables@), k as nat),
        decreases nt - k,
    {
        let len = plan.tables[k].elements.len();
        push_table_init(s, n, tb.as_str(), k, len);
        assert(tables_view(plan.tables@)[k as int].len() == len);
        k = k + 1;
    }
}

fn push_memory_store(s: &mut String, n: &str, m: &AotCompiledMetadata, plan: &LinkedRuntimePlan)
    requires
        m.module_context.local_memory_begin + 8 <= i32::MAX,
    ensures
        final(s)@ == old(s)@ + memory_store_text(n@, *m, plan@),
{
    reveal(memory_store_text);
    let lmb = m.module_context.local_memory_begin;
    if lmb >= 0 {
        let ctx = module_context_name(n);
        let (base, len) = match &plan.memory_bytes {
            Some(b) => {
                let mut e = string_of("(uint64_t)(uintptr_t)");
                let mem = module_memory_name(n);
                push_str(&mut e, mem.as_str());
                (e, b.len())
            },
            None => (string_of("0"), 0usize),
        };
        push_store(s, ctx.as_str(), lmb as u64, base.as_str());
        let mut value = string_of("(uint64_t)");
        push_int(&mut value, len as u64);
        push_store(s, ctx.as_str(), (lmb + 8) as u64, value.as_str());
    }
    assert(s@ =~= old(s)@ + memory_store_text(n@, *m, plan@));
}

fn push_global_stores(s: &mut String, n: &str, m: &AotCompiledMetadata, plan: &LinkedRuntimePlan)
    requires
        m.module_context.globals_begin >= 0 ==> m.module_context.globals_begin + 16 * plan@.globals.len() <= i32::MAX,
    ensures
        final(s)@ == old(s)@ + globals_store_text(n@, *m, plan@),
{
    reveal(globals_store_text);
    let gb = m.module_context.globals_begin;
    if gb >= 0 {
        let ghost start = s@;
        let ctx = module_context_name(n);
        let ng = plan.globals.len();
        let mut i: usize = 0;
        while i < ng
            invariant
                ng == plan.globals@.len(),
                i <= ng,
                gb >= 0,
                gb + 16 * ng <= i32::MAX,
                ctx@ == module_context_text(n@),
                s@ == start + global_stores(ctx@, gb as int, plan.globals@, i as nat),
            decreases ng - i,
        {
            let off: u64 = gb as u64 + 16 * (i as u64);
            let g = plan.globals[i];
            let mut lo = string_of("UINT64_C(");
            push_int(&mut lo, g.value_lo);
            push_str(&mut lo, ")");
            let mut hi = string_of("UINT64_C(");
            push_int(&mut hi, g.value_hi);
            push_str(&mut hi, ")");
            push_store(s, ctx.as_str(), off, lo.as_str());
            push_store(s, ctx.as_str(), off + 8, hi.as_str());
            assert(s@ =~= start + global_stores(ctx@, gb as int, plan.globals@, (i + 1) as nat));
            i = i + 1;
        }
    }
    assert(s@ =~= old(s)@ + globals_store_text(n@, *m, plan@));
}

fn push_type_ids_store(s: &mut String, n: &str, m: &AotCompiledMetadata, plan: &LinkedRuntimePlan)
    ensures
        final(s)@ == old(s)@ + type_ids_store_text(n@, *m, plan@),
{
    reveal(type_ids_store_text);
    let t1 = m.module_context.type_ids_1st_element;
    if t1 >= 0 && plan.type_ids.len() > 0 {
        let ctx = module_context_name(n);
        let mut value = string_of("(uint64_t)(uintptr_t)");
        push_str(&mut value, n);
        push_str(&mut value, "_type_ids");
        push_store(s, ctx.as_str(), t1 as u64, value.as_str());
    }
    assert(s@ =~= old(s)@ + type_ids_store_text(n@, *m, plan@));
}

fn push_table_stores(s: &mut String, n: &str, m: &AotCompiledMetadata, plan: &LinkedRuntimePlan)
    requires
        m.module_context.tables_begin >= 0 ==> m.module_context.tables_begin + 8 * plan@.tables.len() <= i32::MAX,
    ensures
        final(s)@ == old(s)@ + tables_store_text(n@, *m, plan@),
{
    reveal(tables_store_text);
    let tbb = m.module_context.tables_begin;
    if tbb >= 0 {
        let ghost start = s@;
        let ctx = module_context_name(n);
        let mut tb = string_of(n);
        push_str(&mut tb, "_tables");
        let nt = plan.tables.len();
        let mut k: usize = 0;
        while k < nt
            invariant
                nt == plan.tables@.len(),
                k <= nt,
                tbb >= 0,
                tbb + 8 * nt <= i32::MAX,
                ctx@ == module_context_text(n@),
                tb@ == n@ + "_tables"@,
                s@ == start + table_stores(ctx@, tbb as int, tb@, k as nat),
            decreases nt - k,
        {
            let mut value = string_of("(uint64_t)(uintptr_t)&");
            push_str(&mut value, tb.as_str());
            push_str(&mut value, "[");
            push_int(&mut value, k as u64);
            push_str(&mut value, "]");
            push_store(s, ctx.as_str(), tbb as u64 + 8 * (k as u64), value.as_str());
            assert(s@ =~= start + table_stores(ctx@, tbb as int, tb@, (k + 1) as nat));
            k = k + 1;
        }
    }
    assert(s@ =~= old(s)@ + tables_store_text(n@, *m, plan@));
}

fn push_runtime_init(s: &mut String, n: &str, m: &AotCompiledMetadata, plan: &LinkedRuntimePlan)
    requires
        context_offsets_fit(*m, plan@),
    ensures
        final(s)@ == old(s)@ + runtime_init_text(n@, *m, plan@),
{
    let ghost start = s@;
    push_init_header(s, n);
    push_function_inits(s, n, m);
    push_table_inits(s, n, plan);
    push_memory_store(s, n, m, plan);
    push_global_stores(s, n, m, plan);
    push_type_ids_store(s, n, m, plan);
    push_table_stores(s, n, m, plan);
    assert(s@ =~= start + runtime_init_text(n@, *m, plan@));
}

fn push_start_call(s: &mut String, n: &str, m: &AotCompiledMetadata, target: NativePackagingTarget, start: u32, type_index: u32)
    ensures
        final(s)@ == old(s)@ + start_call_text(n@, *m, entrypoint_symbol_text(target.architecture), start, type_index),
{
    push_str(s, "    {\n        uint64_t param_result[1] = {0};\n        razero_link_exec_ctx_t execution_context = {{0}};\n        uint64_t go_stack[4096] = {0};\n        ");
    push_str(s, target.entrypoint_symbol());
    push_str(s, "(");
    let pre = preamble_symbol_name(n, type_index);
    push_str(s, pre.as_str());
    push_str(s, ", (const unsigned char*)&");
    let raw = linked_wasm_function_symbol_name(&m.module_id, start);
    push_str(s, raw.as_str());
    push_str(s, ", (uintptr_t)&execution_context, ");
    let ctx = module_context_name(n);
    push_str(s, ctx.as_str());
    push_str(s, ".bytes, param_result, (uintptr_t)go_stack);\n    }\n");
    assert(s@ =~= old(s)@ + start_call_text(n@, *m, entrypoint_symbol_text(target.architecture), start, type_index));
}

/// The C source of a module's static runtime state and its initializer.
pub fn build_module_runtime_source(
    module: &ModuleSpec,
    runtime_plan: &LinkedRuntimePlan,
    target: NativePackagingTarget,
) -> (res: Result<String, NativeLinkError>)
    requires
        context_offsets_fit(module.metadata, runtime_plan@),
    ensures
        match module_runtime_source_text(
            module.sanitized_name@,
            module.metadata,
            runtime_plan@,
            entrypoint_symbol_text(target.architecture),
        ) {
            Ok(t) => res matches Ok(r) && r@ == t,
            Err(t) => res matches Err(e) && e.text() == t,
        },
{
    let n = module.sanitized_name.as_str();
    let m = &module.metadata;
    let mut s = String::new();
    push_runtime_decls(&mut s, n, m, runtime_plan);
    push_runtime_init(&mut s, n, m, runtime_plan);
    let ghost body = s@;
    assert(body =~= runtime_decls_text(n@, *m, runtime_plan@) + runtime_init_text(n@, *m, runtime_plan@));
    match m.start_function_index {
        None => {},
        Some(start) => {
            let slot = match find_function(m.functions.as_slice(), start) {
                Some(slot) => slot,
                None => {
                    return Err(NativeLinkError::new(string_of("start function metadata is missing")));
                },
            };
            push_start_call(&mut s, n, m, target, start, m.functions[slot].type_index);
        },
    }
    push_str(&mut s, "}\n\n");
    Ok(s)
}

// ---------------------------------------------------------------------------
// C ABI wrappers
// ---------------------------------------------------------------------------

/// `<c type> argN` for the first `k` parameters, separated by `, `.
pub open spec fn params_list(params: Seq<u8>, k: nat) -> Seq<char>
    decreases k,
{
    if k == 0 {
        seq![]
    } else if k == 1 {
        c_type_text(params[0]) + " arg0"@
    } else {
        params_list(params, (k - 1) as nat) + ", "@ + c_type_text(params[k - 1]) + " arg"@ + d(k - 1)
    }
}

/// The statements that pack the first `k` parameters.
pub open spec fn params_pack(params: Seq<u8>, k: nat) -> Seq<char>
    decreases k,
{
    if k == 0 {
        seq![]
    } else {
        params_pack(params, (k - 1) as nat) + param_pack_text(params[k - 1], (k - 1) as usize)
    }
}

pub open spec fn max3(a: usize, b: usize) -> int {
    let m = if a >= b {
        a as int
    } else {
        b as int
    };
    if m >= 1 {
        m
    } else {
        1
    }
}

/// The C ABI wrapper of a function: it initializes its module, packs the
/// arguments into the parameter-result slots, enters the compiled function
/// through its type's preamble, and returns the result, if any.
pub open spec fn wrapper_function_text(
    module_name: Seq<char>,
    index: u32,
    ty: AotFunctionTypeMetadata,
    raw_symbol: Seq<char>,
    preamble_symbol: Seq<char>,
    init_function_name: Seq<char>,
    module_context_name: Seq<char>,
    entry: Seq<char>,
) -> Seq<char> {
    let return_type = if ty.results@.len() > 0 {
        c_type_text(ty.results@[0])
    } else {
        "void"@
    };
    let params = if ty.params@.len() == 0 {
        "void"@
    } else {
        params_list(ty.params@, ty.params@.len())
    };
    return_type + " "@ + cabi_wrapper_symbol_text(module_name, index) + "("@ + params + ") {\n"@
        + "    uint64_t param_result["@ + d(max3(ty.param_num_in_u64, ty.result_num_in_u64)) + "] = {0};\n"@
        + "    razero_link_exec_ctx_t execution_context = {{0}};\n"@ + "    uint64_t go_stack[4096] = {0};\n"@
        + "    "@ + init_function_name + "();\n"@ + params_pack(ty.params@, ty.params@.len()) + "    "@ + entry + "("@
        + preamble_symbol + ", (const unsigned char*)&"@ + raw_symbol + ", (uintptr_t)&execution_context, "@
        + module_context_name + ".bytes, param_result, (uintptr_t)go_stack);\n"@ + (if ty.results@.len() > 0 {
        result_unpack_text(ty.results@[0])
    } else {
        seq![]
    }) + "}\n"@
}

/// A C ABI wrapper declares `max(param_num_in_u64, result_num_in_u64, 1)`
/// parameter-result slots, at least one; a wrapper with a result ends by
/// returning it from slot 0, where the entry preamble leaves the first
/// result, reading no other slot there.
pub proof fn lemma_wrapper_returns_slot_zero(
    module_name: Seq<char>,
    index: u32,
    ty: AotFunctionTypeMetadata,
    raw_symbol: Seq<char>,
    preamble_symbol: Seq<char>,
    init_function_name: Seq<char>,
    module_context_name: Seq<char>,
    entry: Seq<char>,
)
    ensures
        ({
            let w = wrapper_function_text(
                module_name,
                index,
                ty,
                raw_symbol,
                preamble_symbol,
                init_function_name,
                module_context_name,
                entry,
            );
            let slots = max3(ty.param_num_in_u64, ty.result_num_in_u64);
            &&& slots >= 1
            &&& contains_text(w, "    uint64_t param_result["@ + d(slots) + "] = {0};\n"@)
            &&& ty.results@.len() > 0 ==> exists|body: Seq<char>, pre: Seq<char>, post: Seq<char>|
                bracket_free(pre) && bracket_free(post) && w == body + (pre + slot_text(0) + post) + "}\n"@
        }),
{
    let w = wrapper_function_text(
        module_name,
        index,
        ty,
        raw_symbol,
        preamble_symbol,
        init_function_name,
        module_context_name,
        entry,
    );
    let slots = max3(ty.param_num_in_u64, ty.result_num_in_u64);
    let return_type = if ty.results@.len() > 0 {
        c_type_text(ty.results@[0])
    } else {
        "void"@
    };
    let params = if ty.params@.len() == 0 {
        "void"@
    } else {
        params_list(ty.params@, ty.params@.len())
    };
    let head = return_type + " "@ + cabi_wrapper_symbol_text(module_name, index) + "("@ + params + ") {\n"@;
    let decl = "    uint64_t param_result["@ + d(slots) + "] = {0};\n"@;
    let unpack = if ty.results@.len() > 0 {
        result_unpack_text(ty.results@[0])
    } else {
        seq![]
    };
    let middle = "    razero_link_exec_ctx_t execution_context = {{0}};\n"@ + "    uint64_t go_stack[4096] = {0};\n"@
        + "    "@ + init_function_name + "();\n"@ + params_pack(ty.params@, ty.params@.len()) + "    "@ + entry + "("@
        + preamble_symbol + ", (const unsigned char*)&"@ + raw_symbol + ", (uintptr_t)&execution_context, "@
        + module_context_name + ".bytes, param_result, (uintptr_t)go_stack);\n"@;
    assert(w =~= head + decl + (middle + unpack + "}\n"@));
    lemma_contains_middle(head, decl, middle + unpack + "}\n"@);
    if ty.results@.len() > 0 {
        lemma_result_read_from_slot_zero(ty.results@[0]);
        let (pre, post) = choose|pre: Seq<char>, post: Seq<char>|
            bracket_free(pre) && bracket_free(post) && result_unpack_text(ty.results@[0]) == pre + slot_text(0)
                + post;
        assert(w =~= (head + decl + middle) + (pre + slot_text(0) + post) + "}\n"@);
    }
}

fn push_params_list(s: &mut String, params: &Vec<u8>)
    requires
        params@.len() > 0,
        forall|i: int| 0 <= i < params@.len() ==> crate::linker::is_scalar_c_abi(#[trigger] params@[i]),
    ensures
        final(s)@ == old(s)@ + params_list(params@, params@.len()),
{
    let ghost start = s@;
    push_str(s, c_type_name(params[0]));
    push_str(s, " arg0");
    assert(s@ =~= start + params_list(params@, 1));
    let n = params.len();
    let mut i: usize = 1;
    while i < n
        invariant
            n == params@.len(),
            1 <= i <= n,
            forall|j: int| 0 <= j < params@.len() ==> crate::linker::is_scalar_c_abi(#[trigger] params@[j]),
            s@ == start + params_list(params@, i as nat),
        decreases n - i,
    {
        push_str(s, ", ");
        push_str(s, c_type_name(params[i]));
        push_str(s, " arg");
        push_int(s, i as u64);
        assert(s@ =~= start + params_list(params@, (i + 1) as nat));
        i = i + 1;
    }
}

fn push_params_pack(s: &mut String, params: &Vec<u8>)
    requires
        forall|i: int| 0 <= i < params@.len() ==> crate::linker::is_scalar_c_abi(#[trigger] params@[i]),
    ensures
        final(s)@ == old(s)@ + params_pack(params@, params@.len()),
{
    let ghost start = s@;
    let n = params.len();
    let mut i: usize = 0;
    while i < n
        invariant
            n == params@.len(),
            i <= n,
            forall|j: int| 0 <= j < params@.len() ==> crate::linker::is_scalar_c_abi(#[trigger] params@[j]),
            s@ == start + params_pack(params@, i as nat),
        decreases n - i,
    {
        let p = param_pack_source(params[i], i);
        push_str(s, p.as_str());
        i = i + 1;
    }
}

pub fn wrapper_function_source(
    module_name: &str,
    wasm_function_index: u32,
    ty: &AotFunctionTypeMetadata,
    raw_symbol: &str,
    preamble_symbol: &str,
    init_function_name: &str,
    module_context_name: &str,
    target: NativePackagingTarget,
) -> (res: String)
    requires
        is_c_abi_function_type(*ty),
    ensures
        res@ == wrapper_function_text(
            module_name@,
            wasm_function_index,
            *ty,
            raw_symbol@,
            preamble_symbol@,
            init_function_name@,
            module_context_name@,
            entrypoint_symbol_text(target.architecture),
        ),
{
    let mut s = String::new();
    if ty.results.len() > 0 {
        push_str(&mut s, c_type_name(ty.results[0]));
    } else {
        push_str(&mut s, "void");
    }
    push_str(&mut s, " ");
    let name = cabi_wrapper_symbol_name(module_name, wasm_function_index);
    push_str(&mut s, name.as_str());
    push_str(&mut s, "(");
    if ty.params.len() == 0 {
        push_str(&mut s, "void");
    } else {
        push_params_list(&mut s, &ty.params);
    }
    push_str(&mut s, ") {\n");
    let ghost header = s@;
    push_str(&mut s, "    uint64_t param_result[");
    let a = ty.param_num_in_u64;
    let b = ty.result_num_in_u64;
    let mut slots = if a >= b {
        a
    } else {
        b
    };
    if slots < 1 {
        slots = 1;
    }
    push_int(&mut s, slots as u64);
    push_str(&mut s, "] = {0};\n");
    push_str(&mut s, "    razero_link_exec_ctx_t execution_context = {{0}};\n");
    push_str(&mut s, "    uint64_t go_stack[4096] = {0};\n");
    push_str(&mut s, "    ");
    push_str(&mut s, init_function_name);
    push_str(&mut s, "();\n");
    let ghost before_pack = s@;
    push_params_pack(&mut s, &ty.params);
    let ghost after_pack = s@;
    push_str(&mut s, "    ");
    push_str(&mut s, target.entrypoint_symbol());
    push_str(&mut s, "(");
    push_str(&mut s, preamble_symbol);
    push_str(&mut s, ", (const unsigned char*)&");
    push_str(&mut s, raw_symbol);
    push_str(&mut s, ", (uintptr_t)&execution_context, ");
    push_str(&mut s, module_context_name);
    push_str(&mut s, ".bytes, param_result, (uintptr_t)go_stack);\n");
    if ty.results.len() > 0 {
        let r = result_unpack_source(ty.results[0]);
        push_str(&mut s, r.as_str());
    }
    push_str(&mut s, "}\n");
    assert(s@ =~= wrapper_function_text(
        module_name@,
        wasm_function_index,
        *ty,
        raw_symbol@,
        preamble_symbol@,
        init_function_name@,
        module_context_name@,
        entrypoint_symbol_text(target.architecture),
    ));
    s
}

#[verifier::opaque]
pub open spec fn wrapper_header_text(execution_context_size: usize, entry: Seq<char>) -> Seq<char> {
    "#include <stdint.h>\n#include <stddef.h>\n#include <string.h>\n\n"@ + "extern void "@ + entry
        + "(const unsigned char*, const unsigned char*, uintptr_t, const unsigned char*, uint64_t*, uintptr_t);\n\n"@
        + "typedef struct __attribute__((aligned(16))) { unsigned char bytes["@ + d(execution_context_size as int)
        + "]; } razero_link_exec_ctx_t;\n\n"@
        + "typedef struct { uintptr_t executable_ptr; uintptr_t module_context_ptr; uint32_t type_id; uint32_t reserved; } razero_link_function_instance_t;\n"@
        + "typedef struct { const uintptr_t* base_address; uint32_t len; uint32_t reserved; } razero_link_table_t;\n\n"@
        + "static void store_u64(unsigned char* base, uintptr_t offset, uint64_t value) {\n    memcpy(base + offset, &value, sizeof(value));\n}\n\n"@
}

/// Whether a function gets a C ABI wrapper: its type is known and C ABI
/// compatible.
pub open spec fn has_wrapper(m: AotCompiledMetadata, f: AotFunctionMetadata) -> bool {
    (f.type_index as nat) < m.types@.len() && is_c_abi_function_type(m.types@[f.type_index as int])
}

pub open spec fn extern_decl_text(n: Seq<char>, m: AotCompiledMetadata, f: AotFunctionMetadata) -> Seq<char> {
    "extern void "@ + linked_symbol_text(m.module_id@, f.wasm_function_index) + "(void);\nextern const unsigned char "@
        + preamble_symbol_text(n, f.type_index) + "[];\n"@
}

/// The declarations of the first `k` wrapped functions' symbols and preambles.
pub open spec fn extern_decls(n: Seq<char>, m: AotCompiledMetadata, k: nat) -> Seq<char>
    decreases k,
{
    if k == 0 {
        seq![]
    } else {
        extern_decls(n, m, (k - 1) as nat) + if has_wrapper(m, m.functions@[k - 1]) {
            extern_decl_text(n, m, m.functions@[k - 1])
        } else {
            seq![]
        }
    }
}

pub open spec fn wrapper_text(n: Seq<char>, m: AotCompiledMetadata, entry: Seq<char>, f: AotFunctionMetadata) -> Seq<char> {
    wrapper_function_text(
        n,
        f.wasm_function_index,
        m.types@[f.type_index as int],
        linked_symbol_text(m.module_id@, f.wasm_function_index),
        preamble_symbol_text(n, f.type_index),
        module_init_function_text(n),
        module_context_text(n),
        entry,
    ) + "\n"@
}

/// The wrappers of the first `k` wrapped functions.
pub open spec fn wrappers(n: Seq<char>, m: AotCompiledMetadata, entry: Seq<char>, k: nat) -> Seq<char>
    decreases k,
{
    if k == 0 {
        seq![]
    } else {
        wrappers(n, m, entry, (k - 1) as nat) + if has_wrapper(m, m.functions@[k - 1]) {
            wrapper_text(n, m, entry, m.functions@[k - 1])
        } else {
            seq![]
        }
    }
}

/// The source of one module: the declarations of its wrapped functions, its
/// runtime state and initializer, and its wrappers; an error when its
/// runtime state cannot be planned.
pub open spec fn module_wrapper_text(spec: ModuleSpec, entry: Seq<char>) -> Result<Seq<char>, Seq<char>> {
    let n = spec.sanitized_name@;
    let m = spec.metadata;
    match spec_linked_runtime_plan(m) {
        Err(e) => Err(linked_plan_error_text(e)),
        Ok(plan) => match module_runtime_source_text(n, m, plan, entry) {
            Err(t) => Err(t),
            Ok(rt) => Ok(extern_decls(n, m, m.functions@.len()) + rt + wrappers(n, m, entry, m.functions@.len())),
        },
    }
}

/// `acc` followed by the sources of the modules from `i` on, or the first
/// module's error.
pub open spec fn modules_text_from(specs: Seq<ModuleSpec>, entry: Seq<char>, i: nat, acc: Seq<char>) -> Result<Seq<char>, Seq<char>>
    decreases specs.len() - i,
{
    if i >= specs.len() {
        Ok(acc)
    } else {
        match module_wrapper_text(specs[i as int], entry) {
            Err(t) => Err(t),
            Ok(t) => modules_text_from(specs, entry, i + 1, acc + t),
        }
    }
}

/// The C source of the wrappers of all packaged modules.
pub open spec fn wrapper_source_text(specs: Seq<ModuleSpec>, execution_context_size: usize, entry: Seq<char>) -> Result<Seq<char>, Seq<char>> {
    modules_text_from(specs, entry, 0, wrapper_header_text(execution_context_size, entry))
}

/// Whether every module whose runtime state can be planned keeps its
/// module-context offsets within `i32`.
pub open spec fn specs_fit(specs: Seq<ModuleSpec>) -> bool {
    forall|i: int| 0 <= i < specs.len() ==> match spec_linked_runtime_plan(#[trigger] specs[i].metadata) {
        Ok(plan) => context_offsets_fit(specs[i].metadata, plan),
        Err(_) => true,
    }
}

/// Whether a module's module-context offsets fit, as `context_offsets_fit`
/// says for its runtime plan.
fn context_offsets_fit_exec(m: &AotCompiledMetadata, plan: &LinkedRuntimePlan) -> (res: bool)
    ensures
        res == context_offsets_fit(*m, plan@),
{
    let mc = &m.module_context;
    if mc.local_memory_begin > 0x7fff_fff7 {
        return false;
    }
    if mc.globals_begin >= 0 && plan.globals.len() as u64 > 0x1000_0000 {
        return false;
    }
    if mc.globals_begin >= 0 && mc.globals_begin as u64 + 16 * plan.globals.len() as u64 > 0x7fff_ffff {
        return false;
    }
    if mc.tables_begin >= 0 && plan.tables.len() as u64 > 0x1000_0000 {
        return false;
    }
    if mc.tables_begin >= 0 && mc.tables_begin as u64 + 8 * plan.tables.len() as u64 > 0x7fff_ffff {
        return false;
    }
    true
}

/// Whether the wrapper source can be built for these modules, as
/// `specs_fit` says.
pub fn specs_fit_exec(specs: &[ModuleSpec]) -> (res: bool)
    ensures
        res == specs_fit(specs@),
{
    let n = specs.len();
    let mut i: usize = 0;
    while i < n
        invariant
            n == specs@.len(),
            i <= n,
            forall|j: int| 0 <= j < i ==> match spec_linked_runtime_plan(#[trigger] specs@[j].metadata) {
                Ok(plan) => context_offsets_fit(specs@[j].metadata, plan),
                Err(_) => true,
            },
        decreases n - i,
    {
        match build_linked_runtime_plan(&specs[i].metadata) {
            Ok(plan) => {
                if !context_offsets_fit_exec(&specs[i].metadata, &plan) {
                    assert(!specs_fit(specs@)) by {
                        assert(match spec_linked_runtime_plan(specs@[i as int].metadata) {
                            Ok(p) => !context_offsets_fit(specs@[i as int].metadata, p),
                            Err(_) => false,
                        });
                    }
                    return false;
                }
            },
            Err(_) => {},
        }
        i = i + 1;
    }
    true
}

fn push_wrapper_header(s: &mut String, execution_context_size: usize, target: NativePackagingTarget)
    ensures
        final(s)@ == old(s)@ + wrapper_header_text(execution_context_size, entrypoint_symbol_text(target.architecture)),
{
    reveal(wrapper_header_text);
    push_str(s, "#include <stdint.h>\n#include <stddef.h>\n#include <string.h>\n\n");
    push_str(s, "extern void ");
    push_str(s, target.entrypoint_symbol());
    push_str(s, "(const unsigned char*, const unsigned char*, uintptr_t, const unsigned char*, uint64_t*, uintptr_t);\n\n");
    push_str(s, "typedef struct __attribute__((aligned(16))) { unsigned char bytes[");
    push_int(s, execution_context_size as u64);
    push_str(s, "]; } razero_link_exec_ctx_t;\n\n");
    push_str(s, "typedef struct { uintptr_t executable_ptr; uintptr_t module_context_ptr; uint32_t type_id; uint32_t reserved; } razero_link_function_instance_t;\n");
    push_str(s, "typedef struct { const uintptr_t* base_address; uint32_t len; uint32_t reserved; } razero_link_table_t;\n\n");
    push_str(s, "static void store_u64(unsigned char* base, uintptr_t offset, uint64_t value) {\n    memcpy(base + offset, &value, sizeof(value));\n}\n\n");
    assert(s@ =~= old(s)@ + wrapper_header_text(execution_context_size, entrypoint_symbol_text(target.architecture)));
}

fn wrapped_type(m: &AotCompiledMetadata, f: &AotFunctionMetadata) -> (res: bool)
    ensures
        res == has_wrapper(*m, *f),
{
    let ti = f.type_index as usize;
    ti < m.types.len() && function_type_supported(&m.types[ti])
}

fn push_extern_decls(s: &mut String, n: &str, m: &AotCompiledMetadata)
    ensures
        final(s)@ == old(s)@ + extern_decls(n@, *m, m.functions@.len()),
{
    let ghost start = s@;
    let nf = m.functions.len();
    let mut k: usize = 0;
    while k < nf
        invariant
            nf == m.functions@.len(),
            k <= nf,
            s@ == start + extern_decls(n@, *m, k as nat),
        decreases nf - k,
    {
        let f = &m.functions[k];
        if wrapped_type(m, f) {
            push_str(s, "extern void ");
            let raw = linked_wasm_function_symbol_name(&m.module_id, f.wasm_function_index);
            push_str(s, raw.as_str());
            push_str(s, "(void);\nextern const unsigned char ");
            let pre = preamble_symbol_name(n, f.type_index);
            push_str(s, pre.as_str());
            push_str(s, "[];\n");
        }
        assert(s@ =~= start + extern_decls(n@, *m, (k + 1) as nat));
        k = k + 1;
    }
}

fn push_wrappers(s: &mut String, n: &str, m: &AotCompiledMetadata, target: NativePackagingTarget)
    ensures
        final(s)@ == old(s)@ + wrappers(n@, *m, entrypoint_symbol_text(target.architecture), m.functions@.len()),
{
    let ghost start = s@;
    let ghost entry = entrypoint_symbol_text(target.architecture);
    let init = module_init_function_name(n);
    let ctx = module_context_name(n);
    let nf = m.functions.len();
    let mut k: usize = 0;
    while k < nf
        invariant
            nf == m.functions@.len(),
            k <= nf,
            entry == entrypoint_symbol_text(target.architecture),
            init@ == module_init_function_text(n@),
            ctx@ == module_context_text(n@),
            s@ == start + wrappers(n@, *m, entry, k as nat),
        decreases nf - k,
    {
        let f = &m.functions[k];
        if wrapped_type(m, f) {
            let raw = linked_wasm_function_symbol_name(&m.module_id, f.wasm_function_index);
            let pre = preamble_symbol_name(n, f.type_index);
            let w = wrapper_function_source(
                n,
                f.wasm_function_index,
                &m.types[f.type_index as usize],
                raw.as_str(),
                pre.as_str(),
                init.as_str(),
                ctx.as_str(),
                target,
            );
            push_str(s, w.as_str());
            push_str(s, "\n");
        }
        assert(s@ =~= start + wrappers(n@, *m, entry, (k + 1) as nat));
        k = k + 1;
    }
}

/// The C source of the wrappers of all packaged modules: a header with the
/// entrypoint and the runtime types, then for each module the declarations
/// of its wrapped functions, its runtime state and initializer, and its C
/// ABI wrappers; an error for the first module whose runtime state cannot be
/// planned or whose start function is not local.
pub fn build_wrapper_source(
    module_specs: &[ModuleSpec],
    execution_context_size: usize,
    target: NativePackagingTarget,
) -> (res: Result<String, NativeLinkError>)
    requires
        specs_fit(module_specs@),
    ensures
        match wrapper_source_text(module_specs@, execution_context_size, entrypoint_symbol_text(target.architecture)) {
            Ok(t) => res matches Ok(r) && r@ == t,
            Err(t) => res matches Err(e) && e.text() == t,
        },
{
    let ghost entry = entrypoint_symbol_text(target.architecture);
    let mut s = String::new();
    push_wrapper_header(&mut s, execution_context_size, target);
    assert(s@ =~= wrapper_header_text(execution_context_size, entry));
    let nm = module_specs.len();
    let mut i: usize = 0;
    while i < nm
        invariant
            nm == module_specs@.len(),
            i <= nm,
            specs_fit(module_specs@),
            entry == entrypoint_symbol_text(target.architecture),
            wrapper_source_text(module_specs@, execution_context_size, entry) == modules_text_from(
                module_specs@,
                entry,
                i as nat,
                s@,
            ),
        decreases nm - i,
    {
        let spec = &module_specs[i];
        let n = spec.sanitized_name.as_str();
        let m = &spec.metadata;
        let plan = match build_linked_runtime_plan(m) {
            Ok(plan) => plan,
            Err(e) => {
                return Err(NativeLinkError::new(e.message()));
            },
        };
        assert(context_offsets_fit(*m, plan@));
        let ghost before = s@;
        let mut part = String::new();
        push_extern_decls(&mut part, n, m);
        let runtime = match build_module_runtime_source(spec, &plan, target) {
            Ok(r) => r,
            Err(e) => {
                return Err(e);
            },
        };
        push_str(&mut part, runtime.as_str());
        push_wrappers(&mut part, n, m, target);
        assert(module_wrapper_text(*spec, entry) == Ok::<Seq<char>, Seq<char>>(part@));
        push_str(&mut s, part.as_str());
        i = i + 1;
    }
    Ok(s)
}

} // verus!
