//! The C driver of a hello-host executable: it lays out the guest's memory
//! and module context, enters the guest's `run` export, and serves the host
//! calls that the guest makes through its packaged host imports.

use vstd::prelude::*;
use crate::aot::AotCompiledMetadata;
use crate::linker::{
    HelloHostSpec, HelloHostDataSegment, PackagedHostImportSpec, NativePackagingTarget,
    entrypoint_symbol_text, after_host_call_entrypoint_symbol_text, comma_hex_bytes_text,
    comma_hex_bytes,
};
use crate::text::{push_str, push_decimal, push_signed_decimal, decimal, signed_decimal, contains_text, lemma_contains_middle};

verus! {

/// The numbers of the compiler's host-call ABI that the driver is written
/// against: the exit code of a host-function call, the mask that keeps the
/// base of an exit code, and the size of a function instance in the module
/// context.
#[derive(Clone, Copy, Debug, PartialEq, Eq, Structural)]
pub struct HostCallAbi {
    pub call_go_function_exit_code: u32,
    pub exit_code_mask: u32,
    pub function_instance_size: i32,
}

pub open spec fn dec(v: int) -> Seq<char> {
    decimal(v as nat)
}

pub open spec fn at_least(v: int, floor: int) -> int {
    if v >= floor {
        v
    } else {
        floor
    }
}

/// `index` as a two's complement `i32`, as `index as i32` reads it.
pub open spec fn wrapped_index(index: u32) -> int {
    if index <= i32::MAX {
        index as int
    } else {
        index - 0x1_0000_0000
    }
}

/// Where a host import's function instance starts in the module context.
pub open spec fn import_base(m: AotCompiledMetadata, abi: HostCallAbi, index: u32) -> int {
    m.module_context.imported_functions_begin + abi.function_instance_size * wrapped_index(index)
}

/// Whether the function instance of the host import with this index, and
/// the offsets of its fields, fit in `i32` as they are computed.
pub open spec fn import_base_fits(m: AotCompiledMetadata, abi: HostCallAbi, index: u32) -> bool {
    let p = abi.function_instance_size * wrapped_index(index);
    &&& i32::MIN <= p <= i32::MAX
    &&& i32::MIN <= import_base(m, abi, index)
    &&& import_base(m, abi, index) + 16 <= i32::MAX
}

/// Whether every offset that the driver writes fits in `i32`, as the
/// offsets are computed.
pub open spec fn driver_offsets_fit(m: AotCompiledMetadata, h: HelloHostSpec, abi: HostCallAbi) -> bool {
    &&& m.module_context.local_memory_begin + 8 <= i32::MAX
    &&& forall|i: int|
        0 <= i < h.host_imports@.len() ==> import_base_fits(
            m,
            abi,
            (#[trigger] h.host_imports@[i]).descriptor.function_import_index,
        )
}

/// Whether the driver offsets of the host import with this index fit, as
/// `import_base_fits` says.
pub fn import_base_fits_exec(m: &AotCompiledMetadata, abi: HostCallAbi, index: u32) -> (res: bool)
    ensures
        res == import_base_fits(*m, abi, index),
{
    let wrapped: i64 = if index <= 0x7fff_ffff {
        index as i64
    } else {
        index as i64 - 0x1_0000_0000
    };
    let size = abi.function_instance_size as i64;
    assert(-0x8000_0000 <= size <= 0x7fff_ffff);
    assert(-0x8000_0000 <= wrapped <= 0x7fff_ffff);
    assert(-0x4000_0000_0000_0000 <= size * wrapped <= 0x4000_0000_0000_0000) by (nonlinear_arith)
        requires
            -0x8000_0000 <= size <= 0x7fff_ffff,
            -0x8000_0000 <= wrapped <= 0x7fff_ffff,
    ;
    let product = size * wrapped;
    if product < -0x8000_0000 || product > 0x7fff_ffff {
        return false;
    }
    let base = m.module_context.imported_functions_begin as i64 + product;
    base >= -0x8000_0000 && base + 16 <= 0x7fff_ffff
}

// --- the parts of the driver, in order ---------------------------------

pub open spec fn prelude_text(entry: Seq<char>, after: Seq<char>, run: Seq<char>, preamble: Seq<char>) -> Seq<char> {
    "#include <stdint.h>\n#include <stdio.h>\n#include <string.h>\n\n"@ + "extern void "@ + entry
        + "(const unsigned char*, const unsigned char*, uintptr_t, const unsigned char*, uint64_t*, uintptr_t);\n"@
        + "extern void "@ + after + "(const unsigned char*, uintptr_t, uintptr_t, uintptr_t);\n"@ + "extern void "@
        + run + "(void);\nextern const unsigned char "@ + preamble + "[];\n"@
}

pub open spec fn import_decl_text(imp: PackagedHostImportSpec) -> Seq<char> {
    "extern const unsigned char "@ + imp.trampoline_symbol@ + "[];\nextern int "@ + imp.descriptor.host_symbol_name@
        + "(unsigned char*, unsigned char*, size_t, uint64_t*, size_t);\n"@
}

/// The declarations of the first `k` host imports.
pub open spec fn import_decls(imports: Seq<PackagedHostImportSpec>, k: nat) -> Seq<char>
    decreases k,
{
    if k == 0 || k > imports.len() {
        seq![]
    } else {
        import_decls(imports, (k - 1) as nat) + import_decl_text(imports[k - 1])
    }
}

pub open spec fn globals_text(m: AotCompiledMetadata, memory_len: int, abi: HostCallAbi) -> Seq<char> {
    "\n"@ + "enum { RAZERO_EXIT_OK = 0u, RAZERO_EXIT_CALL_GO_FUNCTION = "@ + dec(abi.call_go_function_exit_code as int)
        + "u, RAZERO_EXIT_MASK = "@ + dec(abi.exit_code_mask as int) + "u };\n\n"@
        + "typedef struct __attribute__((aligned(16))) { unsigned char bytes["@ + dec(
        at_least(m.execution_context.size as int, 16),
    ) + "]; } razero_link_exec_ctx_t;\n"@ + "static unsigned char guest_memory["@ + dec(memory_len)
        + "] = {0};\n"@ + "static struct __attribute__((aligned(16))) { unsigned char bytes["@ + dec(
        at_least(m.module_context.total_size as int, 1),
    ) + "]; } guest_module_ctx = {0};\n\n"@
}

pub open spec fn data_decl_text(i: int, seg: HelloHostDataSegment) -> Seq<char> {
    "static const unsigned char guest_data_"@ + dec(i) + "["@ + dec(at_least(seg.init@.len() as int, 1))
        + "] = {"@ + comma_hex_bytes_text(seg.init@) + "};\n"@
}

/// The initializers of the first `k` data segments.
pub open spec fn data_decls(segs: Seq<HelloHostDataSegment>, k: nat) -> Seq<char>
    decreases k,
{
    if k == 0 || k > segs.len() {
        seq![]
    } else {
        data_decls(segs, (k - 1) as nat) + data_decl_text(k - 1, segs[k - 1])
    }
}

#[verifier::opaque]
pub open spec fn helpers_text() -> Seq<char> {
    "\nstatic uint32_t read_u32(const unsigned char* base, uintptr_t offset) {\n    uint32_t value;\n    memcpy(&value, base + offset, sizeof(value));\n    return value;\n}\n\n"@
        + "static uint64_t read_u64(const unsigned char* base, uintptr_t offset) {\n    uint64_t value;\n    memcpy(&value, base + offset, sizeof(value));\n    return value;\n}\n\n"@
        + "static void store_u32(unsigned char* base, uintptr_t offset, uint32_t value) {\n    memcpy(base + offset, &value, sizeof(value));\n}\n\n"@
        + "static void store_u64(unsigned char* base, uintptr_t offset, uint64_t value) {\n    memcpy(base + offset, &value, sizeof(value));\n}\n\n"@
        + "int main(void) {\n"@ + "    razero_link_exec_ctx_t exec_ctx = {{0}};\n"@
        + "    uint64_t param_result[1] = {0};\n"@ + "    uint64_t go_stack[4096] = {0};\n"@
        + "    uintptr_t stack_top = (((uintptr_t)(go_stack + 4096)) - 1u) & ~(uintptr_t)15u;\n"@
}

pub open spec fn data_copy_text(i: int, seg: HelloHostDataSegment) -> Seq<char> {
    "    memcpy(guest_memory + "@ + dec(seg.offset as int) + ", guest_data_"@ + dec(i) + ", "@ + dec(
        seg.init@.len() as int,
    ) + ");\n"@
}

/// The copies of the first `k` data segments into guest memory.
pub open spec fn data_copies(segs: Seq<HelloHostDataSegment>, k: nat) -> Seq<char>
    decreases k,
{
    if k == 0 || k > segs.len() {
        seq![]
    } else {
        data_copies(segs, (k - 1) as nat) + data_copy_text(k - 1, segs[k - 1])
    }
}

pub open spec fn memory_store_text(m: AotCompiledMetadata, memory_len: int) -> Seq<char> {
    let lmb = m.module_context.local_memory_begin as int;
    "    store_u64(guest_module_ctx.bytes, "@ + signed_decimal(lmb) + ", (uint64_t)(uintptr_t)guest_memory);\n"@
        + "    store_u64(guest_module_ctx.bytes, "@ + signed_decimal(lmb + 8) + ", (uint64_t)"@ + dec(memory_len)
        + ");\n"@
}

pub open spec fn import_store_text(base: int, trampoline: Seq<char>) -> Seq<char> {
    "    store_u64(guest_module_ctx.bytes, "@ + signed_decimal(base) + ", (uint64_t)(uintptr_t)"@ + trampoline
        + ");\n"@ + "    store_u64(guest_module_ctx.bytes, "@ + signed_decimal(base + 8) + ", 0);\n"@
        + "    store_u64(guest_module_ctx.bytes, "@ + signed_decimal(base + 16) + ", 0);\n"@
}

/// The function instances of the first `k` host imports: each points at its
/// trampoline, with no module context and no type.
pub open spec fn import_stores(m: AotCompiledMetadata, abi: HostCallAbi, imports: Seq<PackagedHostImportSpec>, k: nat) -> Seq<char>
    decreases k,
{
    if k == 0 || k > imports.len() {
        seq![]
    } else {
        import_stores(m, abi, imports, (k - 1) as nat) + import_store_text(
            import_base(m, abi, imports[k - 1].descriptor.function_import_index),
            imports[k - 1].trampoline_symbol@,
        )
    }
}

/// How many stack slots a host import's call needs: its parameters or its
/// results, whichever is more, and at least one.
pub open spec fn slot_count(imp: PackagedHostImportSpec) -> int {
    at_least(
        at_least(imp.import_type.param_num_in_u64 as int, imp.import_type.result_num_in_u64 as int),
        1,
    )
}

/// The `case` of the host-call switch that serves one host import: it checks
/// that the guest left enough stack slots, then calls the host function,
/// failing if it fails.
pub open spec fn dispatch_case_text(imp: PackagedHostImportSpec, memory_len: int) -> Seq<char> {
    let qualified = imp.descriptor.import_module@ + "."@ + imp.descriptor.import_name@;
    "                    case "@ + dec(imp.descriptor.function_import_index as int)
        + "u:\n                        if (stack_word_count < "@ + dec(slot_count(imp))
        + "u) { fprintf(stderr, \"host import "@ + qualified
        + " stack is too small\\n\"); return 4; }\n                        if ("@
        + imp.descriptor.host_symbol_name@ + "(guest_module_ctx.bytes, guest_memory, (size_t)"@ + dec(memory_len)
        + ", stack_words, stack_word_count) != 0) { fprintf(stderr, \"host import "@ + qualified
        + " failed\\n\"); return 5; }\n                        break;\n"@
}

/// The cases of the first `k` host imports.
pub open spec fn dispatch_cases(imports: Seq<PackagedHostImportSpec>, memory_len: int, k: nat) -> Seq<char>
    decreases k,
{
    if k == 0 || k > imports.len() {
        seq![]
    } else {
        dispatch_cases(imports, memory_len, (k - 1) as nat) + dispatch_case_text(imports[k - 1], memory_len)
    }
}

#[verifier::opaque]
pub open spec fn loop_head_text(
    m: AotCompiledMetadata,
    entry: Seq<char>,
    preamble: Seq<char>,
    run: Seq<char>,
) -> Seq<char> {
    let ec = m.execution_context;
    "    "@ + entry + "("@ + preamble + ", (const unsigned char*)&"@ + run
        + ", (uintptr_t)&exec_ctx, guest_module_ctx.bytes, param_result, stack_top);\n    for (;;) {\n        uint32_t exit_code = read_u32(exec_ctx.bytes, "@
        + dec(ec.exit_code_offset as int)
        + ");\n        switch (exit_code & RAZERO_EXIT_MASK) {\n            case RAZERO_EXIT_OK:\n                return 0;\n            case RAZERO_EXIT_CALL_GO_FUNCTION: {\n                uintptr_t go_stack_ptr = (uintptr_t)read_u64(exec_ctx.bytes, "@
        + dec(ec.stack_pointer_before_go_call_offset as int)
        + ");\n                uintptr_t return_address = (uintptr_t)read_u64(exec_ctx.bytes, "@
        + dec(ec.go_call_return_address_offset as int)
        + ");\n                uintptr_t frame_pointer = (uintptr_t)read_u64(exec_ctx.bytes, "@
        + dec(ec.frame_pointer_before_go_call_offset as int)
        + ");\n                uint64_t* words = (uint64_t*)go_stack_ptr;\n                size_t stack_word_count = (size_t)(words[0] / 8u);\n                uint64_t* stack_words = words + 1;\n                switch (exit_code >> 8) {\n"@
}

#[verifier::opaque]
pub open spec fn loop_tail_text(m: AotCompiledMetadata, after: Seq<char>) -> Seq<char> {
    "                    default:\n                        fprintf(stderr, \"unexpected host function index %u\\n\", exit_code >> 8);\n                        return 3;\n                }\n                store_u32(exec_ctx.bytes, "@
        + dec(m.execution_context.exit_code_offset as int) + ", RAZERO_EXIT_OK);\n                "@ + after
        + "((const unsigned char*)return_address, (uintptr_t)&exec_ctx, go_stack_ptr, frame_pointer);\n                break;\n            }\n            default:\n                fprintf(stderr, \"unsupported exit code %u while running packaged host-import guest\\n\", exit_code);\n                return 6;\n        }\n    }\n}\n"@
}

/// The whole driver of a hello-host guest.
pub open spec fn hello_host_source_text(
    m: AotCompiledMetadata,
    h: HelloHostSpec,
    preamble: Seq<char>,
    target: NativePackagingTarget,
    abi: HostCallAbi,
) -> Seq<char> {
    let entry = entrypoint_symbol_text(target.architecture);
    let after = after_host_call_entrypoint_symbol_text(target.architecture);
    let memory_len = at_least(h.memory_len_bytes as int, 1);
    let imports = h.host_imports@;
    let segs = h.data_segments@;
    prelude_text(entry, after, h.run_symbol@, preamble) + import_decls(imports, imports.len()) + globals_text(
        m,
        memory_len,
        abi,
    ) + data_decls(segs, segs.len()) + helpers_text() + data_copies(segs, segs.len()) + memory_store_text(
        m,
        memory_len,
    ) + import_stores(m, abi, imports, imports.len()) + loop_head_text(m, entry, preamble, h.run_symbol@)
        + dispatch_cases(imports, memory_len, imports.len()) + loop_tail_text(m, after)
}

// --- what the driver reads after a host call --------------------------------

/// The C statement that declares `var` and loads it from the eight bytes at
/// `offset` of the execution context.
pub open spec fn exec_ctx_load_text(var: Seq<char>, offset: int) -> Seq<char> {
    "uintptr_t "@ + var + " = (uintptr_t)read_u64(exec_ctx.bytes, "@ + dec(offset) + ");"@
}

spec fn head_gap() -> Seq<char> {
    ");\n        switch (exit_code & RAZERO_EXIT_MASK) {\n            case RAZERO_EXIT_OK:\n                return 0;\n            case RAZERO_EXIT_CALL_GO_FUNCTION: {\n                "@
}

spec fn line_gap() -> Seq<char> {
    "\n                "@
}

spec fn head_rest() -> Seq<char> {
    "\n                uint64_t* words = (uint64_t*)go_stack_ptr;\n                size_t stack_word_count = (size_t)(words[0] / 8u);\n                uint64_t* stack_words = words + 1;\n                switch (exit_code >> 8) {\n"@
}

proof fn lemma_load_prefix(var: Seq<char>, lit: Seq<char>, offset: int)
    requires
        lit == "uintptr_t "@ + var + " = (uintptr_t)read_u64(exec_ctx.bytes, "@,
    ensures
        lit + dec(offset) + ");"@ == exec_ctx_load_text(var, offset),
{
    assert(lit + dec(offset) + ");"@ =~= exec_ctx_load_text(var, offset));
}

proof fn lemma_split_sp()
    ensures
        ");\n        switch (exit_code & RAZERO_EXIT_MASK) {\n            case RAZERO_EXIT_OK:\n                return 0;\n            case RAZERO_EXIT_CALL_GO_FUNCTION: {\n                uintptr_t go_stack_ptr = (uintptr_t)read_u64(exec_ctx.bytes, "@
            == head_gap() + ("uintptr_t "@ + "go_stack_ptr"@ + " = (uintptr_t)read_u64(exec_ctx.bytes, "@),
{
    reveal_strlit(");\n        switch (exit_code & RAZERO_EXIT_MASK) {\n            case RAZERO_EXIT_OK:\n                return 0;\n            case RAZERO_EXIT_CALL_GO_FUNCTION: {\n                uintptr_t go_stack_ptr = (uintptr_t)read_u64(exec_ctx.bytes, ");
    reveal_strlit(");\n        switch (exit_code & RAZERO_EXIT_MASK) {\n            case RAZERO_EXIT_OK:\n                return 0;\n            case RAZERO_EXIT_CALL_GO_FUNCTION: {\n                ");
    reveal_strlit("uintptr_t ");
    reveal_strlit("go_stack_ptr");
    reveal_strlit(" = (uintptr_t)read_u64(exec_ctx.bytes, ");
    assert(");\n        switch (exit_code & RAZERO_EXIT_MASK) {\n            case RAZERO_EXIT_OK:\n                return 0;\n            case RAZERO_EXIT_CALL_GO_FUNCTION: {\n                uintptr_t go_stack_ptr = (uintptr_t)read_u64(exec_ctx.bytes, "@
        =~= head_gap() + ("uintptr_t "@ + "go_stack_ptr"@ + " = (uintptr_t)read_u64(exec_ctx.bytes, "@));
}

proof fn lemma_split_ra()
    ensures
        ");\n                uintptr_t return_address = (uintptr_t)read_u64(exec_ctx.bytes, "@ == ");"@ + line_gap() + (
        "uintptr_t "@ + "return_address"@ + " = (uintptr_t)read_u64(exec_ctx.bytes, "@),
{
    reveal_strlit(");\n                uintptr_t return_address = (uintptr_t)read_u64(exec_ctx.bytes, ");
    reveal_strlit(");");
    reveal_strlit("\n                ");
    reveal_strlit("uintptr_t ");
    reveal_strlit("return_address");
    reveal_strlit(" = (uintptr_t)read_u64(exec_ctx.bytes, ");
    assert(");\n                uintptr_t return_address = (uintptr_t)read_u64(exec_ctx.bytes, "@ =~= ");"@ + line_gap() + (
        "uintptr_t "@ + "return_address"@ + " = (uintptr_t)read_u64(exec_ctx.bytes, "@));
}

proof fn lemma_split_fp()
    ensures
        ");\n                uintptr_t frame_pointer = (uintptr_t)read_u64(exec_ctx.bytes, "@ == ");"@ + line_gap() + (
        "uintptr_t "@ + "frame_pointer"@ + " = (uintptr_t)read_u64(exec_ctx.bytes, "@),
{
    reveal_strlit(");\n                uintptr_t frame_pointer = (uintptr_t)read_u64(exec_ctx.bytes, ");
    reveal_strlit(");");
    reveal_strlit("\n                ");
    reveal_strlit("uintptr_t ");
    reveal_strlit("frame_pointer");
    reveal_strlit(" = (uintptr_t)read_u64(exec_ctx.bytes, ");
    assert(");\n                uintptr_t frame_pointer = (uintptr_t)read_u64(exec_ctx.bytes, "@ =~= ");"@ + line_gap() + (
        "uintptr_t "@ + "frame_pointer"@ + " = (uintptr_t)read_u64(exec_ctx.bytes, "@));
}

proof fn lemma_split_rest()
    ensures
        ");\n                uint64_t* words = (uint64_t*)go_stack_ptr;\n                size_t stack_word_count = (size_t)(words[0] / 8u);\n                uint64_t* stack_words = words + 1;\n                switch (exit_code >> 8) {\n"@
            == ");"@ + head_rest(),
{
    reveal_strlit(");\n                uint64_t* words = (uint64_t*)go_stack_ptr;\n                size_t stack_word_count = (size_t)(words[0] / 8u);\n                uint64_t* stack_words = words + 1;\n                switch (exit_code >> 8) {\n");
    reveal_strlit(");");
    reveal_strlit("\n                uint64_t* words = (uint64_t*)go_stack_ptr;\n                size_t stack_word_count = (size_t)(words[0] / 8u);\n                uint64_t* stack_words = words + 1;\n                switch (exit_code >> 8) {\n");
    assert(");\n                uint64_t* words = (uint64_t*)go_stack_ptr;\n                size_t stack_word_count = (size_t)(words[0] / 8u);\n                uint64_t* stack_words = words + 1;\n                switch (exit_code >> 8) {\n"@
        =~= ");"@ + head_rest());
}

/// The loop head, cut at its three loads from the execution context.
#[verifier::spinoff_prover]
proof fn lemma_loop_head_loads(m: AotCompiledMetadata, entry: Seq<char>, preamble: Seq<char>, run: Seq<char>)
    ensures
        ({
            let ec = m.execution_context;
            let head = "    "@ + entry + "("@ + preamble + ", (const unsigned char*)&"@ + run
                + ", (uintptr_t)&exec_ctx, guest_module_ctx.bytes, param_result, stack_top);\n    for (;;) {\n        uint32_t exit_code = read_u32(exec_ctx.bytes, "@
                + dec(ec.exit_code_offset as int) + head_gap();
            loop_head_text(m, entry, preamble, run) == head + exec_ctx_load_text(
                "go_stack_ptr"@,
                ec.stack_pointer_before_go_call_offset as int,
            ) + line_gap() + exec_ctx_load_text("return_address"@, ec.go_call_return_address_offset as int)
                + line_gap() + exec_ctx_load_text("frame_pointer"@, ec.frame_pointer_before_go_call_offset as int)
                + head_rest()
        }),
{
    reveal(loop_head_text);
    let ec = m.execution_context;
    lemma_split_sp();
    lemma_split_ra();
    lemma_split_fp();
    lemma_split_rest();
    let lsp = "uintptr_t "@ + "go_stack_ptr"@ + " = (uintptr_t)read_u64(exec_ctx.bytes, "@;
    let lra = "uintptr_t "@ + "return_address"@ + " = (uintptr_t)read_u64(exec_ctx.bytes, "@;
    let lfp = "uintptr_t "@ + "frame_pointer"@ + " = (uintptr_t)read_u64(exec_ctx.bytes, "@;
    lemma_load_prefix("go_stack_ptr"@, lsp, ec.stack_pointer_before_go_call_offset as int);
    lemma_load_prefix("return_address"@, lra, ec.go_call_return_address_offset as int);
    lemma_load_prefix("frame_pointer"@, lfp, ec.frame_pointer_before_go_call_offset as int);
    let head = "    "@ + entry + "("@ + preamble + ", (const unsigned char*)&"@ + run
        + ", (uintptr_t)&exec_ctx, guest_module_ctx.bytes, param_result, stack_top);\n    for (;;) {\n        uint32_t exit_code = read_u32(exec_ctx.bytes, "@
        + dec(ec.exit_code_offset as int);
    let dsp = dec(ec.stack_pointer_before_go_call_offset as int);
    let dra = dec(ec.go_call_return_address_offset as int);
    let dfp = dec(ec.frame_pointer_before_go_call_offset as int);
    let p1 = ");\n        switch (exit_code & RAZERO_EXIT_MASK) {\n            case RAZERO_EXIT_OK:\n                return 0;\n            case RAZERO_EXIT_CALL_GO_FUNCTION: {\n                uintptr_t go_stack_ptr = (uintptr_t)read_u64(exec_ctx.bytes, "@;
    let p2 = ");\n                uintptr_t return_address = (uintptr_t)read_u64(exec_ctx.bytes, "@;
    let p3 = ");\n                uintptr_t frame_pointer = (uintptr_t)read_u64(exec_ctx.bytes, "@;
    let p4 = ");\n                uint64_t* words = (uint64_t*)go_stack_ptr;\n                size_t stack_word_count = (size_t)(words[0] / 8u);\n                uint64_t* stack_words = words + 1;\n                switch (exit_code >> 8) {\n"@;
    assert(loop_head_text(m, entry, preamble, run) == head + p1 + dsp + p2 + dra + p3 + dfp + p4);
    lemma_regroup(head, head_gap(), lsp, dsp, ");"@, line_gap(), lra, dra, lfp, dfp, head_rest());
}

proof fn lemma_regroup(
    h: Seq<char>,
    hg: Seq<char>,
    lsp: Seq<char>,
    dsp: Seq<char>,
    c: Seq<char>,
    g: Seq<char>,
    lra: Seq<char>,
    dra: Seq<char>,
    lfp: Seq<char>,
    dfp: Seq<char>,
    rest: Seq<char>,
)
    ensures
        h + (hg + lsp) + dsp + (c + g + lra) + dra + (c + g + lfp) + dfp + (c + rest) == (h + hg) + (lsp + dsp + c)
            + g + (lra + dra + c) + g + (lfp + dfp + c) + rest,
{
    assert(h + (hg + lsp) + dsp + (c + g + lra) + dra + (c + g + lfp) + dfp + (c + rest) =~= (h + hg) + (lsp + dsp
        + c) + g + (lra + dra + c) + g + (lfp + dfp + c) + rest);
}

/// After a host call, the driver takes the native stack pointer, the return
/// address and the frame pointer each from its own field of the execution
/// context: `go_stack_ptr` from `stack_pointer_before_go_call_offset`,
/// `return_address` from `go_call_return_address_offset` and
/// `frame_pointer` from `frame_pointer_before_go_call_offset`.
pub proof fn lemma_driver_reads_saved_registers(
    m: AotCompiledMetadata,
    h: HelloHostSpec,
    preamble: Seq<char>,
    target: NativePackagingTarget,
    abi: HostCallAbi,
)
    ensures
        ({
            let src = hello_host_source_text(m, h, preamble, target, abi);
            let ec = m.execution_context;
            &&& contains_text(src, exec_ctx_load_text("go_stack_ptr"@, ec.stack_pointer_before_go_call_offset as int))
            &&& contains_text(src, exec_ctx_load_text("return_address"@, ec.go_call_return_address_offset as int))
            &&& contains_text(src, exec_ctx_load_text("frame_pointer"@, ec.frame_pointer_before_go_call_offset as int))
        }),
{
    let ec = m.execution_context;
    let entry = entrypoint_symbol_text(target.architecture);
    let after = after_host_call_entrypoint_symbol_text(target.architecture);
    let memory_len = at_least(h.memory_len_bytes as int, 1);
    let imports = h.host_imports@;
    let segs = h.data_segments@;
    let before = prelude_text(entry, after, h.run_symbol@, preamble) + import_decls(imports, imports.len()) + globals_text(
        m,
        memory_len,
        abi,
    ) + data_decls(segs, segs.len()) + helpers_text() + data_copies(segs, segs.len()) + memory_store_text(
        m,
        memory_len,
    ) + import_stores(m, abi, imports, imports.len());
    let tail = dispatch_cases(imports, memory_len, imports.len()) + loop_tail_text(m, after);
    let lh = loop_head_text(m, entry, preamble, h.run_symbol@);
    let src = hello_host_source_text(m, h, preamble, target, abi);
    assert(src == before + lh + tail);
    lemma_loop_head_loads(m, entry, preamble, h.run_symbol@);
    let head = "    "@ + entry + "("@ + preamble + ", (const unsigned char*)&"@ + h.run_symbol@
        + ", (uintptr_t)&exec_ctx, guest_module_ctx.bytes, param_result, stack_top);\n    for (;;) {\n        uint32_t exit_code = read_u32(exec_ctx.bytes, "@
        + dec(ec.exit_code_offset as int) + head_gap();
    let sp = exec_ctx_load_text("go_stack_ptr"@, ec.stack_pointer_before_go_call_offset as int);
    let ra = exec_ctx_load_text("return_address"@, ec.go_call_return_address_offset as int);
    let fp = exec_ctx_load_text("frame_pointer"@, ec.frame_pointer_before_go_call_offset as int);
    lemma_contains_loads(before, head, sp, line_gap(), ra, fp, head_rest(), tail);
}

proof fn lemma_contains_loads(
    before: Seq<char>,
    head: Seq<char>,
    sp: Seq<char>,
    g: Seq<char>,
    ra: Seq<char>,
    fp: Seq<char>,
    r: Seq<char>,
    tail: Seq<char>,
)
    ensures
        ({
            let src = before + (head + sp + g + ra + g + fp + r) + tail;
            contains_text(src, sp) && contains_text(src, ra) && contains_text(src, fp)
        }),
{
    let src = before + (head + sp + g + ra + g + fp + r) + tail;
    let p0 = before + head;
    assert(src =~= p0 + sp + (g + ra + g + fp + r + tail));
    lemma_contains_middle(p0, sp, g + ra + g + fp + r + tail);
    assert(src =~= (p0 + sp + g) + ra + (g + fp + r + tail));
    lemma_contains_middle(p0 + sp + g, ra, g + fp + r + tail);
    assert(src =~= (p0 + sp + g + ra + g) + fp + (r + tail));
    lemma_contains_middle(p0 + sp + g + ra + g, fp, r + tail);
}

// --- building the driver -------------------------------------------------

fn push_int(s: &mut String, v: u64)
    ensures
        final(s)@ == old(s)@ + dec(v as int),
{
    push_decimal(s, v);
}

/// The `case` of the host-call switch that serves one host import, for a
/// guest memory of `memory_len` bytes.
pub fn host_dispatch_case_source(host_import: &PackagedHostImportSpec, memory_len: u64) -> (res: String)
    ensures
        res@ == dispatch_case_text(*host_import, memory_len as int),
{
    let d = &host_import.descriptor;
    let a = host_import.import_type.param_num_in_u64;
    let b = host_import.import_type.result_num_in_u64;
    let mut slots = if a >= b {
        a
    } else {
        b
    };
    if slots < 1 {
        slots = 1;
    }
    let mut s = String::new();
    push_str(&mut s, "                    case ");
    push_int(&mut s, d.function_import_index as u64);
    push_str(&mut s, "u:\n                        if (stack_word_count < ");
    push_int(&mut s, slots as u64);
    push_str(&mut s, "u) { fprintf(stderr, \"host import ");
    push_str(&mut s, d.import_module.as_str());
    push_str(&mut s, ".");
    push_str(&mut s, d.import_name.as_str());
    push_str(&mut s, " stack is too small\\n\"); return 4; }\n                        if (");
    push_str(&mut s, d.host_symbol_name.as_str());
    push_str(&mut s, "(guest_module_ctx.bytes, guest_memory, (size_t)");
    push_int(&mut s, memory_len);
    push_str(&mut s, ", stack_words, stack_word_count) != 0) { fprintf(stderr, \"host import ");
    push_str(&mut s, d.import_module.as_str());
    push_str(&mut s, ".");
    push_str(&mut s, d.import_name.as_str());
    push_str(&mut s, " failed\\n\"); return 5; }\n                        break;\n");
    assert(s@ =~= dispatch_case_text(*host_import, memory_len as int));
    s
}

fn push_prelude(s: &mut String, run: &str, preamble: &str, target: NativePackagingTarget)
    ensures
        final(s)@ == old(s)@ + prelude_text(
            entrypoint_symbol_text(target.architecture),
            after_host_call_entrypoint_symbol_text(target.architecture),
            run@,
            preamble@,
        ),
{
    let ghost start = s@;
    push_str(s, "#include <stdint.h>\n#include <stdio.h>\n#include <string.h>\n\n");
    push_str(s, "extern void ");
    push_str(s, target.entrypoint_symbol());
    push_str(s, "(const unsigned char*, const unsigned char*, uintptr_t, const unsigned char*, uint64_t*, uintptr_t);\n");
    push_str(s, "extern void ");
    push_str(s, target.after_host_call_entrypoint_symbol());
    push_str(s, "(const unsigned char*, uintptr_t, uintptr_t, uintptr_t);\n");
    push_str(s, "extern void ");
    push_str(s, run);
    push_str(s, "(void);\nextern const unsigned char ");
    push_str(s, preamble);
    push_str(s, "[];\n");
    assert(s@ =~= start + prelude_text(
        entrypoint_symbol_text(target.architecture),
        after_host_call_entrypoint_symbol_text(target.architecture),
        run@,
        preamble@,
    ));
}

fn push_import_decls(s: &mut String, imports: &Vec<PackagedHostImportSpec>)
    ensures
        final(s)@ == old(s)@ + import_decls(imports@, imports@.len()),
{
    let ghost start = s@;
    let count = imports.len();
    let mut k: usize = 0;
    while k < count
        invariant
            count == imports@.len(),
            k <= count,
            s@ == start + import_decls(imports@, k as nat),
        decreases count - k,
    {
        let imp = &imports[k];
        push_str(s, "extern const unsigned char ");
        push_str(s, imp.trampoline_symbol.as_str());
        push_str(s, "[];\nextern int ");
        push_str(s, imp.descriptor.host_symbol_name.as_str());
        push_str(s, "(unsigned char*, unsigned char*, size_t, uint64_t*, size_t);\n");
        assert(s@ =~= start + import_decls(imports@, (k + 1) as nat));
        k = k + 1;
    }
}

fn push_globals(s: &mut String, m: &AotCompiledMetadata, memory_len: u64, abi: HostCallAbi)
    ensures
        final(s)@ == old(s)@ + globals_text(*m, memory_len as int, abi),
{
    let ghost start = s@;
    push_str(s, "\n");
    push_str(s, "enum { RAZERO_EXIT_OK = 0u, RAZERO_EXIT_CALL_GO_FUNCTION = ");
    push_int(s, abi.call_go_function_exit_code as u64);
    push_str(s, "u, RAZERO_EXIT_MASK = ");
    push_int(s, abi.exit_code_mask as u64);
    push_str(s, "u };\n\n");
    push_str(s, "typedef struct __attribute__((aligned(16))) { unsigned char bytes[");
    let size = m.execution_context.size;
    push_int(s, if size >= 16 { size as u64 } else { 16 });
    push_str(s, "]; } razero_link_exec_ctx_t;\n");
    push_str(s, "static unsigned char guest_memory[");
    push_int(s, memory_len);
    push_str(s, "] = {0};\n");
    push_str(s, "static struct __attribute__((aligned(16))) { unsigned char bytes[");
    let total = m.module_context.total_size;
    push_int(s, if total >= 1 { total as u64 } else { 1 });
    push_str(s, "]; } guest_module_ctx = {0};\n\n");
    assert(s@ =~= start + globals_text(*m, memory_len as int, abi));
}

fn push_data_decls(s: &mut String, segs: &Vec<HelloHostDataSegment>)
    ensures
        final(s)@ == old(s)@ + data_decls(segs@, segs@.len()),
{
    let ghost start = s@;
    let count = segs.len();
    let mut k: usize = 0;
    while k < count
        invariant
            count == segs@.len(),
            k <= count,
            s@ == start + data_decls(segs@, k as nat),
        decreases count - k,
    {
        let seg = &segs[k];
        push_str(s, "static const unsigned char guest_data_");
        push_int(s, k as u64);
        push_str(s, "[");
        let len = seg.init.len();
        push_int(s, if len >= 1 { len as u64 } else { 1 });
        push_str(s, "] = {");
        let bytes = comma_hex_bytes(seg.init.as_slice());
        push_str(s, bytes.as_str());
        push_str(s, "};\n");
        assert(s@ =~= start + data_decls(segs@, (k + 1) as nat));
        k = k + 1;
    }
}

fn push_helpers(s: &mut String)
    ensures
        final(s)@ == old(s)@ + helpers_text(),
{
    let ghost start = s@;
    reveal(helpers_text);
    push_str(s, "\nstatic uint32_t read_u32(const unsigned char* base, uintptr_t offset) {\n    uint32_t value;\n    memcpy(&value, base + offset, sizeof(value));\n    return value;\n}\n\n");
    push_str(s, "static uint64_t read_u64(const unsigned char* base, uintptr_t offset) {\n    uint64_t value;\n    memcpy(&value, base + offset, sizeof(value));\n    return value;\n}\n\n");
    push_str(s, "static void store_u32(unsigned char* base, uintptr_t offset, uint32_t value) {\n    memcpy(base + offset, &value, sizeof(value));\n}\n\n");
    push_str(s, "static void store_u64(unsigned char* base, uintptr_t offset, uint64_t value) {\n    memcpy(base + offset, &value, sizeof(value));\n}\n\n");
    push_str(s, "int main(void) {\n");
    push_str(s, "    razero_link_exec_ctx_t exec_ctx = {{0}};\n");
    push_str(s, "    uint64_t param_result[1] = {0};\n");
    push_str(s, "    uint64_t go_stack[4096] = {0};\n");
    push_str(s, "    uintptr_t stack_top = (((uintptr_t)(go_stack + 4096)) - 1u) & ~(uintptr_t)15u;\n");
    assert(s@ =~= start + helpers_text());
}

fn push_data_copies(s: &mut String, segs: &Vec<HelloHostDataSegment>)
    ensures
        final(s)@ == old(s)@ + data_copies(segs@, segs@.len()),
{
    let ghost start = s@;
    let count = segs.len();
    let mut k: usize = 0;
    while k < count
        invariant
            count == segs@.len(),
            k <= count,
            s@ == start + data_copies(segs@, k as nat),
        decreases count - k,
    {
        let seg = &segs[k];
        push_str(s, "    memcpy(guest_memory + ");
        push_int(s, seg.offset as u64);
        push_str(s, ", guest_data_");
        push_int(s, k as u64);
        push_str(s, ", ");
        push_int(s, seg.init.len() as u64);
        push_str(s, ");\n");
        assert(s@ =~= start + data_copies(segs@, (k + 1) as nat));
        k = k + 1;
    }
}

fn push_memory_store(s: &mut String, m: &AotCompiledMetadata, memory_len: u64)
    requires
        m.module_context.local_memory_begin + 8 <= i32::MAX,
    ensures
        final(s)@ == old(s)@ + memory_store_text(*m, memory_len as int),
{
    let ghost start = s@;
    let lmb = m.module_context.local_memory_begin;
    push_str(s, "    store_u64(guest_module_ctx.bytes, ");
    push_signed_decimal(s, lmb as i64);
    push_str(s, ", (uint64_t)(uintptr_t)guest_memory);\n");
    push_str(s, "    store_u64(guest_module_ctx.bytes, ");
    push_signed_decimal(s, (lmb + 8) as i64);
    push_str(s, ", (uint64_t)");
    push_int(s, memory_len);
    push_str(s, ");\n");
    assert(s@ =~= start + memory_store_text(*m, memory_len as int));
}

fn import_base_exec(m: &AotCompiledMetadata, abi: HostCallAbi, index: u32) -> (res: i64)
    requires
        import_base_fits(*m, abi, index),
    ensures
        res == import_base(*m, abi, index),
        i32::MIN <= res,
        res + 16 <= i32::MAX,
{
    let wrapped: i64 = if index <= 0x7fff_ffff {
        index as i64
    } else {
        index as i64 - 0x1_0000_0000
    };
    assert(wrapped == wrapped_index(index));
    let size = abi.function_instance_size as i64;
    let product: i64 = size * wrapped;
    m.module_context.imported_functions_begin as i64 + product
}

fn push_import_store(s: &mut String, base: i64, trampoline: &str)
    requires
        i32::MIN <= base,
        base + 16 <= i32::MAX,
    ensures
        final(s)@ == old(s)@ + import_store_text(base as int, trampoline@),
{
    let ghost start = s@;
    push_str(s, "    store_u64(guest_module_ctx.bytes, ");
    push_signed_decimal(s, base);
    push_str(s, ", (uint64_t)(uintptr_t)");
    push_str(s, trampoline);
    push_str(s, ");\n");
    push_str(s, "    store_u64(guest_module_ctx.bytes, ");
    push_signed_decimal(s, base + 8);
    push_str(s, ", 0);\n");
    push_str(s, "    store_u64(guest_module_ctx.bytes, ");
    push_signed_decimal(s, base + 16);
    push_str(s, ", 0);\n");
    assert(s@ =~= start + import_store_text(base as int, trampoline@));
}

fn push_import_stores(s: &mut String, m: &AotCompiledMetadata, imports: &Vec<PackagedHostImportSpec>, abi: HostCallAbi)
    requires
        forall|i: int|
            0 <= i < imports@.len() ==> import_base_fits(*m, abi, (#[trigger] imports@[i]).descriptor.function_import_index),
    ensures
        final(s)@ == old(s)@ + import_stores(*m, abi, imports@, imports@.len()),
{
    let ghost start = s@;
    let count = imports.len();
    let mut k: usize = 0;
    while k < count
        invariant
            count == imports@.len(),
            k <= count,
            s@ == start + import_stores(*m, abi, imports@, k as nat),
            forall|i: int|
                0 <= i < imports@.len() ==> import_base_fits(
                    *m,
                    abi,
                    (#[trigger] imports@[i]).descriptor.function_import_index,
                ),
        decreases count - k,
    {
        let imp = &imports[k];
        let base = import_base_exec(m, abi, imp.descriptor.function_import_index);
        push_import_store(s, base, imp.trampoline_symbol.as_str());
        assert(s@ =~= start + import_stores(*m, abi, imports@, (k + 1) as nat));
        k = k + 1;
    }
}

fn push_loop_head(s: &mut String, m: &AotCompiledMetadata, target: NativePackagingTarget, preamble: &str, run: &str)
    ensures
        final(s)@ == old(s)@ + loop_head_text(*m, entrypoint_symbol_text(target.architecture), preamble@, run@),
{
    let ghost start = s@;
    reveal(loop_head_text);
    let ec = &m.execution_context;
    push_str(s, "    ");
    push_str(s, target.entrypoint_symbol());
    push_str(s, "(");
    push_str(s, preamble);
    push_str(s, ", (const unsigned char*)&");
    push_str(s, run);
    push_str(s, ", (uintptr_t)&exec_ctx, guest_module_ctx.bytes, param_result, stack_top);\n    for (;;) {\n        uint32_t exit_code = read_u32(exec_ctx.bytes, ");
    push_int(s, ec.exit_code_offset as u64);
    push_str(s, ");\n        switch (exit_code & RAZERO_EXIT_MASK) {\n            case RAZERO_EXIT_OK:\n                return 0;\n            case RAZERO_EXIT_CALL_GO_FUNCTION: {\n                uintptr_t go_stack_ptr = (uintptr_t)read_u64(exec_ctx.bytes, ");
    push_int(s, ec.stack_pointer_before_go_call_offset as u64);
    push_str(s, ");\n                uintptr_t return_address = (uintptr_t)read_u64(exec_ctx.bytes, ");
    push_int(s, ec.go_call_return_address_offset as u64);
    push_str(s, ");\n                uintptr_t frame_pointer = (uintptr_t)read_u64(exec_ctx.bytes, ");
    push_int(s, ec.frame_pointer_before_go_call_offset as u64);
    push_str(s, ");\n                uint64_t* words = (uint64_t*)go_stack_ptr;\n                size_t stack_word_count = (size_t)(words[0] / 8u);\n                uint64_t* stack_words = words + 1;\n                switch (exit_code >> 8) {\n");
    assert(s@ =~= start + loop_head_text(*m, entrypoint_symbol_text(target.architecture), preamble@, run@));
}

fn push_dispatch_cases(s: &mut String, imports: &Vec<PackagedHostImportSpec>, memory_len: u64)
    ensures
        final(s)@ == old(s)@ + dispatch_cases(imports@, memory_len as int, imports@.len()),
{
    let ghost start = s@;
    let count = imports.len();
    let mut k: usize = 0;
    while k < count
        invariant
            count == imports@.len(),
            k <= count,
            s@ == start + dispatch_cases(imports@, memory_len as int, k as nat),
        decreases count - k,
    {
        let case_source = host_dispatch_case_source(&imports[k], memory_len);
        push_str(s, case_source.as_str());
        assert(s@ =~= start + dispatch_cases(imports@, memory_len as int, (k + 1) as nat));
        k = k + 1;
    }
}

fn push_loop_tail(s: &mut String, m: &AotCompiledMetadata, target: NativePackagingTarget)
    ensures
        final(s)@ == old(s)@ + loop_tail_text(*m, after_host_call_entrypoint_symbol_text(target.architecture)),
{
    let ghost start = s@;
    reveal(loop_tail_text);
    push_str(s, "                    default:\n                        fprintf(stderr, \"unexpected host function index %u\\n\", exit_code >> 8);\n                        return 3;\n                }\n                store_u32(exec_ctx.bytes, ");
    push_int(s, m.execution_context.exit_code_offset as u64);
    push_str(s, ", RAZERO_EXIT_OK);\n                ");
    push_str(s, target.after_host_call_entrypoint_symbol());
    push_str(s, "((const unsigned char*)return_address, (uintptr_t)&exec_ctx, go_stack_ptr, frame_pointer);\n                break;\n            }\n            default:\n                fprintf(stderr, \"unsupported exit code %u while running packaged host-import guest\\n\", exit_code);\n                return 6;\n        }\n    }\n}\n");
    assert(s@ =~= start + loop_tail_text(*m, after_host_call_entrypoint_symbol_text(target.architecture)));
}

/// The C driver of a hello-host executable: declarations of the native
/// entrypoints, the guest's `run` function and preamble and the host
/// imports; the guest memory, module context and data; a `main` that copies
/// the data in, stores the memory and the host imports' function instances
/// into the module context, enters `run`, and then serves host-function
/// exits until the guest returns, failing with a distinct status for an
/// unknown host function, a short stack, a failed host call or any other
/// exit.
pub fn build_hello_host_source(
    metadata: &AotCompiledMetadata,
    hello_host: &HelloHostSpec,
    preamble_symbol: &str,
    target: NativePackagingTarget,
    abi: HostCallAbi,
) -> (res: String)
    requires
        driver_offsets_fit(*metadata, *hello_host, abi),
    ensures
        res@ == hello_host_source_text(*metadata, *hello_host, preamble_symbol@, target, abi),
{
    let memory_len: u64 = if hello_host.memory_len_bytes >= 1 {
        hello_host.memory_len_bytes
    } else {
        1
    };
    let run = hello_host.run_symbol.as_str();
    let mut s = String::new();
    push_prelude(&mut s, run, preamble_symbol, target);
    push_import_decls(&mut s, &hello_host.host_imports);
    push_globals(&mut s, metadata, memory_len, abi);
    push_data_decls(&mut s, &hello_host.data_segments);
    push_helpers(&mut s);
    push_data_copies(&mut s, &hello_host.data_segments);
    push_memory_store(&mut s, metadata, memory_len);
    push_import_stores(&mut s, metadata, &hello_host.host_imports, abi);
    push_loop_head(&mut s, metadata, target, preamble_symbol, run);
    push_dispatch_cases(&mut s, &hello_host.host_imports, memory_len);
    push_loop_tail(&mut s, metadata, target);
    assert(s@ =~= hello_host_source_text(*metadata, *hello_host, preamble_symbol@, target, abi));
    s
}

} // verus!
