//! Native executable packaging: which compiled modules can be linked, the C
//! ABI exports they offer, and the symbol names and C source fragments that
//! the generated wrappers are made of.

use vstd::prelude::*;
use vstd::string::StrSliceExecFns;
use crate::aot::{
    AotCompiledMetadata, AotDataSegmentMetadata, AotFunctionTypeMetadata, AotImportDescMetadata,
    AotImportMetadata, AotExportMetadata, AotTargetArchitecture, AotTargetOperatingSystem,
    VALUE_TYPE_I32, VALUE_TYPE_I64, VALUE_TYPE_F32, VALUE_TYPE_F64, EXTERN_TYPE_FUNC,
};
use crate::const_expr::{
    spec_eval_const, evaluate_const_expr, const_expr_error_text, first_function_slot, find_function,
    LinkedGlobalValue, ConstExprError,
};
use crate::package::{PackagedHostImportDescriptor, ImportModel};
use crate::relocation::{linked_wasm_function_symbol_name, linked_symbol_text};
use crate::runtime_state::{
    spec_linked_runtime_plan, build_linked_runtime_plan, linked_plan_error_text,
};
use crate::relocation::RelocatableObjectArtifact;
use crate::text::{lemma_decimal_nul_free, lemma_sanitize_nul_free, nul_free, push_str, push_char, push_decimal, push_hex2, push_sanitized, hex2, decimal, sanitize_chars, string_of, is_ident_char};

verus! {

/// The error of validating or linking native modules.
#[derive(Clone, Debug, Eq, PartialEq)]
pub struct NativeLinkError {
    message: String,
}

impl NativeLinkError {
    /// The text of the message.
    pub closed spec fn text(&self) -> Seq<char> {
        self.message@
    }

    pub fn new(message: String) -> (res: Self)
        ensures
            res.text() == message@,
    {
        NativeLinkError { message }
    }

    /// The error's message.
    pub fn message(&self) -> (res: String)
        ensures
            res@ == self.text(),
    {
        self.message.clone()
    }
}

/// An object file and its AOT metadata sidecar, to be linked into a native
/// executable.
#[derive(Clone, Debug, Eq, PartialEq)]
pub struct NativeLinkModule {
    pub name: String,
    pub object_bytes: Vec<u8>,
    pub metadata_sidecar_bytes: Vec<u8>,
}

impl NativeLinkModule {
    pub fn new(name: String, object_bytes: Vec<u8>, metadata_sidecar_bytes: Vec<u8>) -> (res: Self)
        ensures
            res.name@ == name@,
            res.object_bytes@ == object_bytes@,
            res.metadata_sidecar_bytes@ == metadata_sidecar_bytes@,
    {
        NativeLinkModule { name, object_bytes, metadata_sidecar_bytes }
    }

    /// The module for an emitted relocatable object.
    pub fn from_artifact(name: String, artifact: RelocatableObjectArtifact) -> (res: Self)
        ensures
            res.name@ == name@,
            res.object_bytes@ == artifact.object_bytes@,
            res.metadata_sidecar_bytes@ == artifact.metadata_sidecar_bytes@,
    {
        Self::new(name, artifact.object_bytes, artifact.metadata_sidecar_bytes)
    }
}

/// A C ABI function exported by a linked executable.
#[derive(Clone, Debug, Eq, PartialEq)]
pub struct NativeCAbiExport {
    pub module_name: String,
    pub wasm_function_index: u32,
    pub symbol_name: String,
    pub params: Vec<u8>,
    pub results: Vec<u8>,
}

// ---------------------------------------------------------------------------
// Identifiers and symbol names
// ---------------------------------------------------------------------------

/// A C identifier made of `value`: characters other than ASCII letters,
/// digits and `_` become `_`, an empty value becomes `module`, and a leading
/// digit gets a `_` before it.
pub open spec fn sanitize_identifier_text(value: Seq<char>) -> Seq<char> {
    let base = if value.len() == 0 {
        "module"@
    } else {
        sanitize_chars(value)
    };
    if '0' <= base[0] && base[0] <= '9' {
        seq!['_'] + base
    } else {
        base
    }
}

/// Whether a name is a C identifier: not empty, made of ASCII letters,
/// digits and `_`, and not starting with a digit.
pub open spec fn is_c_identifier(name: Seq<char>) -> bool {
    &&& name.len() > 0
    &&& forall|i: int| 0 <= i < name.len() ==> is_ident_char(#[trigger] name[i])
    &&& !('0' <= name[0] && name[0] <= '9')
}

/// Every sanitized name is a C identifier, and a name that already is one
/// is kept as it is.
pub proof fn lemma_sanitized_is_c_identifier(value: Seq<char>)
    ensures
        is_c_identifier(sanitize_identifier_text(value)),
        is_c_identifier(value) ==> sanitize_identifier_text(value) == value,
{
    reveal_strlit("module");
    let base = if value.len() == 0 {
        "module"@
    } else {
        sanitize_chars(value)
    };
    assert forall|i: int| 0 <= i < base.len() implies is_ident_char(#[trigger] base[i]) by {
        if value.len() == 0 {
            assert(base == seq!['m', 'o', 'd', 'u', 'l', 'e']);
        }
    }
    let r = sanitize_identifier_text(value);
    if '0' <= base[0] && base[0] <= '9' {
        assert forall|i: int| 0 <= i < r.len() implies is_ident_char(#[trigger] r[i]) by {
            if i > 0 {
                assert(r[i] == base[i - 1]);
            }
        }
    }
    if is_c_identifier(value) {
        assert(sanitize_chars(value) =~= value);
    }
}

pub fn sanitize_identifier(value: &str) -> (res: String)
    ensures
        res@ == sanitize_identifier_text(value@),
{
    let mut base = String::new();
    push_sanitized(&mut base, value);
    if base.as_str().unicode_len() == 0 {
        push_str(&mut base, "module");
        proof {
            reveal_strlit("module");
        }
    }
    assert(base@ =~= if value@.len() == 0 {
        "module"@
    } else {
        sanitize_chars(value@)
    });
    let first = base.as_str().get_char(0);
    if '0' <= first && first <= '9' {
        let mut res = String::new();
        push_char(&mut res, '_');
        push_str(&mut res, base.as_str());
        assert(res@ =~= seq!['_'] + base@);
        res
    } else {
        base
    }
}

fn push_identifier(s: &mut String, value: &str)
    ensures
        final(s)@ == old(s)@ + sanitize_identifier_text(value@),
{
    let id = sanitize_identifier(value);
    push_str(s, id.as_str());
}

pub open spec fn module_init_function_text(module: Seq<char>) -> Seq<char> {
    "razero_cabi_"@ + sanitize_identifier_text(module) + "_initialize"@
}

/// The name of a module's generated initialization function.
pub fn module_init_function_name(module_name: &str) -> (res: String)
    ensures
        res@ == module_init_function_text(module_name@),
{
    let mut s = string_of("razero_cabi_");
    push_identifier(&mut s, module_name);
    push_str(&mut s, "_initialize");
    s
}

pub open spec fn module_context_text(module: Seq<char>) -> Seq<char> {
    "razero_cabi_"@ + sanitize_identifier_text(module) + "_module_ctx"@
}

/// The name of a module's generated module-context buffer.
pub fn module_context_name(module_name: &str) -> (res: String)
    ensures
        res@ == module_context_text(module_name@),
{
    let mut s = string_of("razero_cabi_");
    push_identifier(&mut s, module_name);
    push_str(&mut s, "_module_ctx");
    s
}

pub open spec fn module_memory_text(module: Seq<char>) -> Seq<char> {
    "razero_cabi_"@ + sanitize_identifier_text(module) + "_memory"@
}

/// The name of a module's generated memory buffer.
pub fn module_memory_name(module_name: &str) -> (res: String)
    ensures
        res@ == module_memory_text(module_name@),
{
    let mut s = string_of("razero_cabi_");
    push_identifier(&mut s, module_name);
    push_str(&mut s, "_memory");
    s
}

pub open spec fn table_elements_text(module: Seq<char>, table_index: usize) -> Seq<char> {
    "razero_cabi_"@ + sanitize_identifier_text(module) + "_table_"@ + decimal(table_index as nat)
        + "_elements"@
}

/// The name of a module's generated table-element array.
pub fn table_elements_name(module_name: &str, table_index: usize) -> (res: String)
    ensures
        res@ == table_elements_text(module_name@, table_index),
{
    let mut s = string_of("razero_cabi_");
    push_identifier(&mut s, module_name);
    push_str(&mut s, "_table_");
    push_decimal(&mut s, table_index as u64);
    push_str(&mut s, "_elements");
    s
}

pub open spec fn cabi_wrapper_symbol_text(module: Seq<char>, index: u32) -> Seq<char> {
    "razero_cabi_"@ + sanitize_identifier_text(module) + "_function_"@ + decimal(index as nat)
}

/// The name of the C ABI wrapper of a module's function.
pub fn cabi_wrapper_symbol_name(module_name: &str, wasm_function_index: u32) -> (res: String)
    ensures
        res@ == cabi_wrapper_symbol_text(module_name@, wasm_function_index),
{
    let mut s = string_of("razero_cabi_");
    push_identifier(&mut s, module_name);
    push_str(&mut s, "_function_");
    push_decimal(&mut s, wasm_function_index as u64);
    s
}

pub open spec fn preamble_symbol_text(module: Seq<char>, type_index: u32) -> Seq<char> {
    "razero_cabi_"@ + sanitize_identifier_text(module) + "_type_"@ + decimal(type_index as nat)
        + "_preamble"@
}

/// The name of an entry preamble has no NUL character.
pub proof fn lemma_preamble_symbol_nul_free(module: Seq<char>, type_index: u32)
    ensures
        nul_free(preamble_symbol_text(module, type_index)),
{
    reveal_strlit("razero_cabi_");
    reveal_strlit("_type_");
    reveal_strlit("_preamble");
    reveal_strlit("module");
    assert(nul_free("razero_cabi_"@));
    assert(nul_free("_type_"@));
    assert(nul_free("_preamble"@));
    assert(nul_free("module"@));
    lemma_sanitize_nul_free(module);
    lemma_decimal_nul_free(type_index as nat);
    let base = if module.len() == 0 {
        "module"@
    } else {
        sanitize_chars(module)
    };
    assert(nul_free(base));
    assert(nul_free(seq!['_'] + base));
    assert(nul_free(sanitize_identifier_text(module)));
}

/// The name of the entry preamble of a module's function type.
pub fn preamble_symbol_name(module_name: &str, type_index: u32) -> (res: String)
    ensures
        res@ == preamble_symbol_text(module_name@, type_index),
{
    let mut s = string_of("razero_cabi_");
    push_identifier(&mut s, module_name);
    push_str(&mut s, "_type_");
    push_decimal(&mut s, type_index as u64);
    push_str(&mut s, "_preamble");
    s
}

pub open spec fn hello_host_handler_symbol_text(module: Seq<char>, name: Seq<char>) -> Seq<char> {
    "razero_hello_host_"@ + sanitize_identifier_text(module) + "_"@ + sanitize_identifier_text(name)
        + "_handler"@
}

/// The name of the C handler of a hello-host import.
pub fn hello_host_handler_symbol_name(import_module: &str, import_name: &str) -> (res: String)
    ensures
        res@ == hello_host_handler_symbol_text(import_module@, import_name@),
{
    let mut s = string_of("razero_hello_host_");
    push_identifier(&mut s, import_module);
    push_str(&mut s, "_");
    push_identifier(&mut s, import_name);
    push_str(&mut s, "_handler");
    s
}

pub open spec fn packaged_host_import_symbol_text(index: u32, module: Seq<char>, name: Seq<char>) -> Seq<
    char,
> {
    "razero_import_function_"@ + decimal(index as nat) + "_"@ + sanitize_identifier_text(module)
        + "_"@ + sanitize_identifier_text(name)
}

/// The name of the trampoline of a packaged host import.
pub fn packaged_host_import_symbol_name(function_import_index: u32, import_module: &str, import_name: &str) -> (res: String)
    ensures
        res@ == packaged_host_import_symbol_text(function_import_index, import_module@, import_name@),
{
    let mut s = string_of("razero_import_function_");
    push_decimal(&mut s, function_import_index as u64);
    push_str(&mut s, "_");
    push_identifier(&mut s, import_module);
    push_str(&mut s, "_");
    push_identifier(&mut s, import_name);
    s
}

/// `0x..` renderings of the bytes, separated by `, `.
pub open spec fn comma_hex(b: Seq<u8>) -> Seq<char>
    decreases b.len(),
{
    if b.len() == 0 {
        seq![]
    } else if b.len() == 1 {
        "0x"@ + hex2(b[0])
    } else {
        comma_hex(b.drop_last()) + ", 0x"@ + hex2(b.last())
    }
}

/// A C initializer list of the bytes; `0x00` for no bytes.
pub open spec fn comma_hex_bytes_text(b: Seq<u8>) -> Seq<char> {
    if b.len() == 0 {
        "0x00"@
    } else {
        comma_hex(b)
    }
}

pub fn comma_hex_bytes(bytes: &[u8]) -> (res: String)
    ensures
        res@ == comma_hex_bytes_text(bytes@),
{
    if bytes.len() == 0 {
        return string_of("0x00");
    }
    let mut s = string_of("0x");
    push_hex2(&mut s, bytes[0]);
    assert(bytes@.take(1).drop_last() =~= bytes@.take(0));
    assert(s@ =~= comma_hex(bytes@.take(1)));
    let n = bytes.len();
    let mut i: usize = 1;
    while i < n
        invariant
            n == bytes@.len(),
            1 <= i <= n,
            s@ == comma_hex(bytes@.take(i as int)),
        decreases n - i,
    {
        push_str(&mut s, ", 0x");
        push_hex2(&mut s, bytes[i]);
        assert(bytes@.take(i + 1).drop_last() =~= bytes@.take(i as int));
        assert(s@ =~= comma_hex(bytes@.take(i + 1)));
        i = i + 1;
    }
    assert(bytes@.take(n as int) =~= bytes@);
    s
}

/// Pads the bytes with zeros to a multiple of 16.
pub fn align_to_16(bytes: &mut Vec<u8>)
    ensures
        final(bytes)@.len() % 16 == 0,
        old(bytes)@.len() <= final(bytes)@.len() < old(bytes)@.len() + 16,
        final(bytes)@.take(old(bytes)@.len() as int) == old(bytes)@,
        forall|i: int| old(bytes)@.len() <= i < final(bytes)@.len() ==> final(bytes)@[i] == 0u8,
{
    crate::relocation::align16_vec(bytes);
}

// ---------------------------------------------------------------------------
// C ABI values
// ---------------------------------------------------------------------------

/// The value types that pass through the C ABI as scalars.
pub open spec fn is_scalar_c_abi(value: u8) -> bool {
    value == VALUE_TYPE_I32 || value == VALUE_TYPE_I64 || value == VALUE_TYPE_F32 || value
        == VALUE_TYPE_F64
}

pub fn scalar_c_abi_value(value: u8) -> (res: bool)
    ensures
        res == is_scalar_c_abi(value),
{
    value == VALUE_TYPE_I32 || value == VALUE_TYPE_I64 || value == VALUE_TYPE_F32 || value
        == VALUE_TYPE_F64
}

/// A function type that a C ABI wrapper can expose: scalar parameters and
/// at most one scalar result.
pub open spec fn is_c_abi_function_type(ty: AotFunctionTypeMetadata) -> bool {
    &&& ty.results@.len() <= 1
    &&& forall|i: int| 0 <= i < ty.params@.len() ==> is_scalar_c_abi(#[trigger] ty.params@[i])
    &&& forall|i: int| 0 <= i < ty.results@.len() ==> is_scalar_c_abi(#[trigger] ty.results@[i])
}

fn all_scalar(values: &Vec<u8>) -> (res: bool)
    ensures
        res == forall|i: int| 0 <= i < values@.len() ==> is_scalar_c_abi(#[trigger] values@[i]),
{
    let n = values.len();
    let mut i: usize = 0;
    while i < n
        invariant
            n == values@.len(),
            i <= n,
            forall|j: int| 0 <= j < i ==> is_scalar_c_abi(#[trigger] values@[j]),
        decreases n - i,
    {
        if !scalar_c_abi_value(values[i]) {
            return false;
        }
        i = i + 1;
    }
    true
}

pub fn function_type_supported(ty: &AotFunctionTypeMetadata) -> (res: bool)
    ensures
        res == is_c_abi_function_type(*ty),
{
    ty.results.len() <= 1 && all_scalar(&ty.params) && all_scalar(&ty.results)
}

pub open spec fn c_type_text(value: u8) -> Seq<char> {
    if value == VALUE_TYPE_I32 {
        "int32_t"@
    } else if value == VALUE_TYPE_I64 {
        "int64_t"@
    } else if value == VALUE_TYPE_F32 {
        "float"@
    } else {
        "double"@
    }
}

/// The C type of a scalar value type.
pub fn c_type_name(value: u8) -> (res: &'static str)
    requires
        is_scalar_c_abi(value),
    ensures
        res@ == c_type_text(value),
{
    if value == VALUE_TYPE_I32 {
        "int32_t"
    } else if value == VALUE_TYPE_I64 {
        "int64_t"
    } else if value == VALUE_TYPE_F32 {
        "float"
    } else {
        "double"
    }
}

pub open spec fn param_pack_text(value: u8, index: usize) -> Seq<char> {
    let i = decimal(index as nat);
    if value == VALUE_TYPE_I32 {
        "    param_result["@ + i + "] = (uint32_t)arg"@ + i + ";\n"@
    } else if value == VALUE_TYPE_I64 {
        "    param_result["@ + i + "] = (uint64_t)arg"@ + i + ";\n"@
    } else if value == VALUE_TYPE_F32 {
        "    union { float value; uint32_t bits; } arg"@ + i + "_bits = { .value = arg"@ + i
            + " };\n    param_result["@ + i + "] = arg"@ + i + "_bits.bits;\n"@
    } else {
        "    union { double value; uint64_t bits; } arg"@ + i + "_bits = { .value = arg"@ + i
            + " };\n    param_result["@ + i + "] = arg"@ + i + "_bits.bits;\n"@
    }
}

/// The C statements that store parameter `index` into the parameter-result
/// slots.
pub fn param_pack_source(value: u8, index: usize) -> (res: String)
    requires
        is_scalar_c_abi(value),
    ensures
        res@ == param_pack_text(value, index),
{
    let mut s = string_of("    param_result[");
    if value == VALUE_TYPE_I32 || value == VALUE_TYPE_I64 {
        push_decimal(&mut s, index as u64);
        if value == VALUE_TYPE_I32 {
            push_str(&mut s, "] = (uint32_t)arg");
        } else {
            push_str(&mut s, "] = (uint64_t)arg");
        }
        push_decimal(&mut s, index as u64);
        push_str(&mut s, ";\n");
        assert(s@ =~= param_pack_text(value, index));
        s
    } else {
        let mut s = if value == VALUE_TYPE_F32 {
            string_of("    union { float value; uint32_t bits; } arg")
        } else {
            string_of("    union { double value; uint64_t bits; } arg")
        };
        push_decimal(&mut s, index as u64);
        push_str(&mut s, "_bits = { .value = arg");
        push_decimal(&mut s, index as u64);
        push_str(&mut s, " };\n    param_result[");
        push_decimal(&mut s, index as u64);
        push_str(&mut s, "] = arg");
        push_decimal(&mut s, index as u64);
        push_str(&mut s, "_bits.bits;\n");
        assert(s@ =~= param_pack_text(value, index));
        s
    }
}

pub open spec fn result_unpack_text(value: u8) -> Seq<char> {
    if value == VALUE_TYPE_I32 {
        "    return (int32_t)(uint32_t)param_result[0];\n"@
    } else if value == VALUE_TYPE_I64 {
        "    return (int64_t)param_result[0];\n"@
    } else if value == VALUE_TYPE_F32 {
        "    union { float value; uint32_t bits; } result = { .bits = (uint32_t)param_result[0] };\n    return result.value;\n"@
    } else {
        "    union { double value; uint64_t bits; } result = { .bits = param_result[0] };\n    return result.value;\n"@
    }
}

/// The C statements that return the result from the parameter-result slots.
pub fn result_unpack_source(value: u8) -> (res: String)
    requires
        is_scalar_c_abi(value),
    ensures
        res@ == result_unpack_text(value),
{
    if value == VALUE_TYPE_I32 {
        string_of("    return (int32_t)(uint32_t)param_result[0];\n")
    } else if value == VALUE_TYPE_I64 {
        string_of("    return (int64_t)param_result[0];\n")
    } else if value == VALUE_TYPE_F32 {
        string_of("    union { float value; uint32_t bits; } result = { .bits = (uint32_t)param_result[0] };\n    return result.value;\n")
    } else {
        string_of("    union { double value; uint64_t bits; } result = { .bits = param_result[0] };\n    return result.value;\n")
    }
}

// --- which parameter-result slots a wrapper reads and writes ----------------

/// The C expression for parameter-result slot `j`.
pub open spec fn slot_text(j: nat) -> Seq<char> {
    "param_result["@ + decimal(j) + "]"@
}

/// Text without a `[`: it indexes no array.
pub open spec fn bracket_free(s: Seq<char>) -> bool {
    forall|i: int| 0 <= i < s.len() ==> s[i] != '['
}

proof fn lemma_decimal_bracket_free(n: nat)
    ensures
        bracket_free(decimal(n)),
    decreases n,
{
    if n >= 10 {
        lemma_decimal_bracket_free(n / 10);
    }
}

proof fn lemma_bracket_free_join(a: Seq<char>, b: Seq<char>)
    requires
        bracket_free(a),
        bracket_free(b),
    ensures
        bracket_free(a + b),
{
    assert forall|i: int| 0 <= i < (a + b).len() implies (a + b)[i] != '[' by {
        if i >= a.len() {
            assert((a + b)[i] == b[i - a.len()]);
        }
    }
}

proof fn lemma_slot_zero()
    ensures
        slot_text(0) == "param_result[0]"@,
{
    reveal_strlit("param_result[0]");
    reveal_strlit("param_result[");
    reveal_strlit("]");
    assert(decimal(0) == seq!['0']);
    assert(slot_text(0) =~= "param_result[0]"@);
}

/// Parameter `index` of a wrapper is stored into parameter-result slot
/// `index`, and into no other slot.
pub proof fn lemma_param_written_to_its_slot(value: u8, index: usize)
    ensures
        exists|pre: Seq<char>, post: Seq<char>|
            bracket_free(pre) && bracket_free(post) && param_pack_text(value, index) == pre + slot_text(
                index as nat,
            ) + post,
{
    let i = decimal(index as nat);
    lemma_decimal_bracket_free(index as nat);
    let slot = slot_text(index as nat);
    reveal_strlit("param_result[");
    reveal_strlit("]");
    if value == VALUE_TYPE_I32 || value == VALUE_TYPE_I64 {
        let pre = "    "@;
        let cast = if value == VALUE_TYPE_I32 {
            " = (uint32_t)arg"@
        } else {
            " = (uint64_t)arg"@
        };
        let post = cast + i + ";\n"@;
        reveal_strlit("    param_result[");
        reveal_strlit("    ");
        reveal_strlit("] = (uint32_t)arg");
        reveal_strlit("] = (uint64_t)arg");
        reveal_strlit(" = (uint32_t)arg");
        reveal_strlit(" = (uint64_t)arg");
        reveal_strlit(";\n");
        assert("    param_result["@ =~= pre + "param_result["@);
        if value == VALUE_TYPE_I32 {
            assert("] = (uint32_t)arg"@ =~= "]"@ + cast);
        } else {
            assert("] = (uint64_t)arg"@ =~= "]"@ + cast);
        }
        assert(param_pack_text(value, index) =~= pre + slot + post);
        assert(bracket_free(pre));
        assert(bracket_free(cast));
        assert(bracket_free(";\n"@));
        lemma_bracket_free_join(cast, i);
        lemma_bracket_free_join(cast + i, ";\n"@);
    } else {
        let ty = if value == VALUE_TYPE_F32 {
            "    union { float value; uint32_t bits; } arg"@
        } else {
            "    union { double value; uint64_t bits; } arg"@
        };
        let mid = "_bits = { .value = arg"@;
        let open = " };\n    "@;
        let pre = ty + i + mid + i + open;
        let post = " = arg"@ + i + "_bits.bits;\n"@;
        reveal_strlit("    union { float value; uint32_t bits; } arg");
        reveal_strlit("    union { double value; uint64_t bits; } arg");
        reveal_strlit("_bits = { .value = arg");
        reveal_strlit(" };\n    param_result[");
        reveal_strlit(" };\n    ");
        reveal_strlit("] = arg");
        reveal_strlit(" = arg");
        reveal_strlit("_bits.bits;\n");
        assert(" };\n    param_result["@ =~= open + "param_result["@);
        assert("] = arg"@ =~= "]"@ + " = arg"@);
        assert(param_pack_text(value, index) =~= pre + slot + post);
        assert(bracket_free(ty));
        assert(bracket_free(mid));
        assert(bracket_free(open));
        assert(bracket_free(" = arg"@));
        assert(bracket_free("_bits.bits;\n"@));
        lemma_bracket_free_join(ty, i);
        lemma_bracket_free_join(ty + i, mid);
        lemma_bracket_free_join(ty + i + mid, i);
        lemma_bracket_free_join(ty + i + mid + i, open);
        lemma_bracket_free_join(" = arg"@, i);
        lemma_bracket_free_join(" = arg"@ + i, "_bits.bits;\n"@);
    }
}

/// The statements that return a wrapper's result read the parameter-result
/// slots in exactly one place, slot 0, where the entry preamble leaves the
/// first result.
pub proof fn lemma_result_read_from_slot_zero(value: u8)
    ensures
        exists|pre: Seq<char>, post: Seq<char>|
            bracket_free(pre) && bracket_free(post) && result_unpack_text(value) == pre + slot_text(0) + post,
{
    lemma_slot_zero();
    let slot = "param_result[0]"@;
    reveal_strlit("param_result[0]");
    if value == VALUE_TYPE_I32 {
        let pre = "    return (int32_t)(uint32_t)"@;
        let post = ";\n"@;
        reveal_strlit("    return (int32_t)(uint32_t)param_result[0];\n");
        reveal_strlit("    return (int32_t)(uint32_t)");
        reveal_strlit(";\n");
        assert(result_unpack_text(value) =~= pre + slot + post);
        assert(bracket_free(pre) && bracket_free(post));
    } else if value == VALUE_TYPE_I64 {
        let pre = "    return (int64_t)"@;
        let post = ";\n"@;
        reveal_strlit("    return (int64_t)param_result[0];\n");
        reveal_strlit("    return (int64_t)");
        reveal_strlit(";\n");
        assert(result_unpack_text(value) =~= pre + slot + post);
        assert(bracket_free(pre) && bracket_free(post));
    } else if value == VALUE_TYPE_F32 {
        let pre = "    union { float value; uint32_t bits; } result = { .bits = (uint32_t)"@;
        let post = " };\n    return result.value;\n"@;
        reveal_strlit("    union { float value; uint32_t bits; } result = { .bits = (uint32_t)param_result[0] };\n    return result.value;\n");
        reveal_strlit("    union { float value; uint32_t bits; } result = { .bits = (uint32_t)");
        reveal_strlit(" };\n    return result.value;\n");
        assert(result_unpack_text(value) =~= pre + slot + post);
        assert(bracket_free(pre) && bracket_free(post));
    } else {
        let pre = "    union { double value; uint64_t bits; } result = { .bits = "@;
        let post = " };\n    return result.value;\n"@;
        reveal_strlit("    union { double value; uint64_t bits; } result = { .bits = param_result[0] };\n    return result.value;\n");
        reveal_strlit("    union { double value; uint64_t bits; } result = { .bits = ");
        reveal_strlit(" };\n    return result.value;\n");
        assert(result_unpack_text(value) =~= pre + slot + post);
        assert(bracket_free(pre) && bracket_free(post));
    }
}

// ---------------------------------------------------------------------------
// Packaging target
// ---------------------------------------------------------------------------

/// The architecture that this linker instance packages for, and how its
/// entry preambles are trimmed.
#[derive(Clone, Copy, Debug, PartialEq, Eq, Structural)]
pub struct NativePackagingTarget {
    pub architecture: AotTargetArchitecture,
    pub trim_void_preamble_prologue: bool,
}

pub open spec fn unsupported_host_text() -> Seq<char> {
    "native executable packaging currently requires a Linux/x86_64 or Linux/aarch64 host"@
}

/// The packaging target of a host: Linux on x86-64 or aarch64.
pub fn native_packaging_target(host_is_linux: bool, host_architecture: AotTargetArchitecture) -> (res:
    Result<NativePackagingTarget, NativeLinkError>)
    ensures
        host_is_linux && host_architecture == AotTargetArchitecture::X86_64 ==> res == Ok::<
            NativePackagingTarget,
            NativeLinkError,
        >(
            NativePackagingTarget {
                architecture: AotTargetArchitecture::X86_64,
                trim_void_preamble_prologue: true,
            },
        ),
        host_is_linux && host_architecture == AotTargetArchitecture::Aarch64 ==> res == Ok::<
            NativePackagingTarget,
            NativeLinkError,
        >(
            NativePackagingTarget {
                architecture: AotTargetArchitecture::Aarch64,
                trim_void_preamble_prologue: false,
            },
        ),
        !host_is_linux || host_architecture == AotTargetArchitecture::Unknown ==> (res matches Err(e)
            && e.text() == unsupported_host_text()),
{
    if host_is_linux && host_architecture == AotTargetArchitecture::X86_64 {
        Ok(NativePackagingTarget { architecture: AotTargetArchitecture::X86_64, trim_void_preamble_prologue: true })
    } else if host_is_linux && host_architecture == AotTargetArchitecture::Aarch64 {
        Ok(NativePackagingTarget { architecture: AotTargetArchitecture::Aarch64, trim_void_preamble_prologue: false })
    } else {
        Err(NativeLinkError::new(string_of("native executable packaging currently requires a Linux/x86_64 or Linux/aarch64 host")))
    }
}

pub open spec fn entrypoint_symbol_text(a: AotTargetArchitecture) -> Seq<char> {
    match a {
        AotTargetArchitecture::X86_64 => "razero_amd64_entrypoint"@,
        AotTargetArchitecture::Aarch64 => "razero_arm64_entrypoint"@,
        AotTargetArchitecture::Unknown => "razero_entrypoint"@,
    }
}

pub open spec fn after_host_call_entrypoint_symbol_text(a: AotTargetArchitecture) -> Seq<char> {
    match a {
        AotTargetArchitecture::X86_64 => "razero_amd64_after_go_function_call_entrypoint"@,
        AotTargetArchitecture::Aarch64 => "razero_arm64_after_go_function_call_entrypoint"@,
        AotTargetArchitecture::Unknown => "razero_after_go_function_call_entrypoint"@,
    }
}

impl NativePackagingTarget {
    /// The symbol of the native entrypoint.
    pub fn entrypoint_symbol(&self) -> (res: &'static str)
        ensures
            res@ == entrypoint_symbol_text(self.architecture),
    {
        match self.architecture {
            AotTargetArchitecture::X86_64 => "razero_amd64_entrypoint",
            AotTargetArchitecture::Aarch64 => "razero_arm64_entrypoint",
            AotTargetArchitecture::Unknown => "razero_entrypoint",
        }
    }

    /// The symbol of the entrypoint that resumes after a host call.
    pub fn after_host_call_entrypoint_symbol(&self) -> (res: &'static str)
        ensures
            res@ == after_host_call_entrypoint_symbol_text(self.architecture),
    {
        match self.architecture {
            AotTargetArchitecture::X86_64 => "razero_amd64_after_go_function_call_entrypoint",
            AotTargetArchitecture::Aarch64 => "razero_arm64_after_go_function_call_entrypoint",
            AotTargetArchitecture::Unknown => "razero_after_go_function_call_entrypoint",
        }
    }
}

pub open spec fn os_debug_name(os: AotTargetOperatingSystem) -> Seq<char> {
    match os {
        AotTargetOperatingSystem::Linux => "Linux"@,
        AotTargetOperatingSystem::Darwin => "Darwin"@,
        AotTargetOperatingSystem::Windows => "Windows"@,
        AotTargetOperatingSystem::Unknown => "Unknown"@,
    }
}

pub fn os_debug_name_str(os: AotTargetOperatingSystem) -> (res: &'static str)
    ensures
        res@ == os_debug_name(os),
{
    match os {
        AotTargetOperatingSystem::Linux => "Linux",
        AotTargetOperatingSystem::Darwin => "Darwin",
        AotTargetOperatingSystem::Windows => "Windows",
        AotTargetOperatingSystem::Unknown => "Unknown",
    }
}

/// The display name of an architecture.
pub open spec fn architecture_display_name(a: AotTargetArchitecture) -> Seq<char> {
    match a {
        AotTargetArchitecture::X86_64 => "x86_64"@,
        AotTargetArchitecture::Aarch64 => "aarch64"@,
        AotTargetArchitecture::Unknown => "unknown"@,
    }
}

pub fn architecture_display_name_str(a: AotTargetArchitecture) -> (res: &'static str)
    ensures
        res@ == architecture_display_name(a),
{
    match a {
        AotTargetArchitecture::X86_64 => "x86_64",
        AotTargetArchitecture::Aarch64 => "aarch64",
        AotTargetArchitecture::Unknown => "unknown",
    }
}

// ---------------------------------------------------------------------------
// Validation
// ---------------------------------------------------------------------------

/// Why a module cannot be packaged by `link_native_executable`, if it cannot:
/// it must target Linux on the linker's architecture, and its runtime state
/// must be plannable.
pub open spec fn metadata_support_error(
    name: Seq<char>,
    m: AotCompiledMetadata,
    target: NativePackagingTarget,
) -> Option<Seq<char>> {
    if m.target.operating_system != AotTargetOperatingSystem::Linux {
        Some(
            "module '"@ + name + "' targets "@ + os_debug_name(m.target.operating_system)
                + ", only linux is supported"@,
        )
    } else if m.target.architecture != target.architecture {
        Some(
            "module '"@ + name + "' targets "@ + architecture_display_name(m.target.architecture)
                + ", but this linker instance packages "@ + architecture_display_name(
                target.architecture,
            ) + " artifacts"@,
        )
    } else {
        match spec_linked_runtime_plan(m) {
            Err(e) => Some(
                "module '"@ + name + "' is outside the packaged linked-runtime slice: "@
                    + linked_plan_error_text(e),
            ),
            Ok(_) => None,
        }
    }
}

pub open spec fn validation_matches(res: Result<(), NativeLinkError>, err: Option<Seq<char>>) -> bool {
    match err {
        None => res is Ok,
        Some(t) => res matches Err(e) && e.text() == t,
    }
}

pub fn validate_metadata_support(
    module_name: &str,
    metadata: &AotCompiledMetadata,
    target: NativePackagingTarget,
) -> (res: Result<(), NativeLinkError>)
    ensures
        validation_matches(res, metadata_support_error(module_name@, *metadata, target)),
{
    if metadata.target.operating_system != AotTargetOperatingSystem::Linux {
        let mut s = string_of("module '");
        push_str(&mut s, module_name);
        push_str(&mut s, "' targets ");
        push_str(&mut s, os_debug_name_str(metadata.target.operating_system));
        push_str(&mut s, ", only linux is supported");
        return Err(NativeLinkError::new(s));
    }
    if metadata.target.architecture != target.architecture {
        let mut s = string_of("module '");
        push_str(&mut s, module_name);
        push_str(&mut s, "' targets ");
        push_str(&mut s, architecture_display_name_str(metadata.target.architecture));
        push_str(&mut s, ", but this linker instance packages ");
        push_str(&mut s, architecture_display_name_str(target.architecture));
        push_str(&mut s, " artifacts");
        return Err(NativeLinkError::new(s));
    }
    match build_linked_runtime_plan(metadata) {
        Ok(_) => Ok(()),
        Err(e) => {
            let mut s = string_of("module '");
            push_str(&mut s, module_name);
            push_str(&mut s, "' is outside the packaged linked-runtime slice: ");
            let m = e.message();
            push_str(&mut s, m.as_str());
            Err(NativeLinkError::new(s))
        },
    }
}

/// The number of function imports.
pub open spec fn func_import_count(imports: Seq<AotImportMetadata>) -> nat
    decreases imports.len(),
{
    if imports.len() == 0 {
        0
    } else {
        func_import_count(imports.drop_last()) + if imports.last().desc is Func {
            1nat
        } else {
            0nat
        }
    }
}

fn count_func_imports(imports: &Vec<AotImportMetadata>) -> (res: usize)
    ensures
        res == func_import_count(imports@),
{
    let n = imports.len();
    let mut count: usize = 0;
    let mut i: usize = 0;
    while i < n
        invariant
            n == imports@.len(),
            i <= n,
            count == func_import_count(imports@.take(i as int)),
            count <= i,
        decreases n - i,
    {
        assert(imports@.take(i + 1).drop_last() =~= imports@.take(i as int));
        match &imports[i].desc {
            AotImportDescMetadata::Func(_) => {
                count = count + 1;
            },
            _ => {},
        }
        i = i + 1;
    }
    assert(imports@.take(n as int) =~= imports@);
    count
}

pub open spec fn host_import_target_text() -> Seq<char> {
    "packaged host-import linker only supports Linux artifacts matching the native linker architecture"@
}

pub open spec fn host_import_shape_text() -> Seq<char> {
    "packaged host-import linker currently expects explicit function imports, one local memory, no globals/tables/start, and no element segments"@
}

pub open spec fn host_import_descriptor_text() -> Seq<char> {
    "packaged host-import linker expected a descriptor for every imported function"@
}

/// Why a module cannot be packaged with `count` host function imports, if it
/// cannot.
pub open spec fn host_import_error(m: AotCompiledMetadata, count: usize, target: NativePackagingTarget) -> Option<
    Seq<char>,
> {
    let shape = m.module_shape;
    if m.target.operating_system != AotTargetOperatingSystem::Linux || m.target.architecture
        != target.architecture {
        Some(host_import_target_text())
    } else if shape.import_function_count != count as u32 || shape.import_global_count != 0
        || shape.import_memory_count != 0 || shape.import_table_count != 0
        || shape.local_global_count != 0 || shape.local_table_count != 0 || !shape.has_local_memory
        || shape.has_start_section || shape.element_segment_count != 0 || m.ensure_termination {
        Some(host_import_shape_text())
    } else if func_import_count(m.imports@) != count {
        Some(host_import_descriptor_text())
    } else {
        None
    }
}

pub fn validate_host_import_metadata(
    metadata: &AotCompiledMetadata,
    host_import_count: usize,
    target: NativePackagingTarget,
) -> (res: Result<(), NativeLinkError>)
    ensures
        validation_matches(res, host_import_error(*metadata, host_import_count, target)),
{
    if metadata.target.operating_system != AotTargetOperatingSystem::Linux
        || metadata.target.architecture != target.architecture {
        return Err(NativeLinkError::new(string_of("packaged host-import linker only supports Linux artifacts matching the native linker architecture")));
    }
    let shape = &metadata.module_shape;
    if shape.import_function_count != host_import_count as u32 || shape.import_global_count != 0
        || shape.import_memory_count != 0 || shape.import_table_count != 0
        || shape.local_global_count != 0 || shape.local_table_count != 0 || !shape.has_local_memory
        || shape.has_start_section || shape.element_segment_count != 0
        || metadata.ensure_termination {
        return Err(NativeLinkError::new(string_of("packaged host-import linker currently expects explicit function imports, one local memory, no globals/tables/start, and no element segments")));
    }
    if count_func_imports(&metadata.imports) != host_import_count {
        return Err(NativeLinkError::new(string_of("packaged host-import linker expected a descriptor for every imported function")));
    }
    Ok(())
}

/// The position of the first function import, at `from` or after.
pub open spec fn first_func_import(imports: Seq<AotImportMetadata>, from: nat) -> Option<nat>
    decreases imports.len() - from,
{
    if from >= imports.len() {
        None
    } else if imports[from as int].desc is Func {
        Some(from)
    } else {
        first_func_import(imports, from + 1)
    }
}

fn find_func_import(imports: &Vec<AotImportMetadata>) -> (res: Option<usize>)
    ensures
        match first_func_import(imports@, 0) {
            None => res is None,
            Some(k) => res matches Some(r) && r == k,
        },
        res matches Some(r) ==> r < imports@.len() && imports@[r as int].desc is Func,
{
    let n = imports.len();
    let mut i: usize = 0;
    while i < n
        invariant
            n == imports@.len(),
            i <= n,
            first_func_import(imports@, 0) == first_func_import(imports@, i as nat),
        decreases n - i,
    {
        match &imports[i].desc {
            AotImportDescMetadata::Func(_) => {
                return Some(i);
            },
            _ => {},
        }
        i = i + 1;
    }
    None
}

/// Whether an export is the function `run`.
pub open spec fn is_run_export(e: AotExportMetadata) -> bool {
    e.ty == EXTERN_TYPE_FUNC && e.name@ == "run"@
}

fn is_run_export_exec(e: &AotExportMetadata) -> (res: bool)
    ensures
        res == is_run_export(*e),
{
    proof {
        reveal_strlit("run");
    }
    if e.ty != EXTERN_TYPE_FUNC {
        return false;
    }
    let name = e.name.as_str();
    if name.unicode_len() != 3 {
        return false;
    }
    let r = name.get_char(0) == 'r' && name.get_char(1) == 'u' && name.get_char(2) == 'n';
    assert(r ==> name@ =~= "run"@);
    r
}

/// The position of the first export of the function `run`, at `from` or after.
pub open spec fn first_run_export(exports: Seq<AotExportMetadata>, from: nat) -> Option<nat>
    decreases exports.len() - from,
{
    if from >= exports.len() {
        None
    } else if is_run_export(exports[from as int]) {
        Some(from)
    } else {
        first_run_export(exports, from + 1)
    }
}

proof fn lemma_first_run_export(exports: Seq<AotExportMetadata>, from: nat)
    ensures
        first_run_export(exports, from) is None <==> !(exists|i: int| from <= i < exports.len()
            && is_run_export(#[trigger] exports[i])),
        first_run_export(exports, from) matches Some(k) ==> from <= k < exports.len()
            && is_run_export(exports[k as int]),
    decreases exports.len() - from,
{
    if from < exports.len() {
        lemma_first_run_export(exports, from + 1);
        if !is_run_export(exports[from as int]) {
            assert forall|i: int| from <= i < exports.len() && is_run_export(#[trigger] exports[i])
                implies from + 1 <= i by {}
        }
    }
}

fn find_run_export(exports: &Vec<AotExportMetadata>) -> (res: Option<usize>)
    ensures
        match first_run_export(exports@, 0) {
            None => res is None,
            Some(k) => res matches Some(r) && r == k,
        },
        res matches Some(r) ==> r < exports@.len() && is_run_export(exports@[r as int]),
{
    proof {
        lemma_first_run_export(exports@, 0);
    }
    let n = exports.len();
    let mut i: usize = 0;
    while i < n
        invariant
            n == exports@.len(),
            i <= n,
            first_run_export(exports@, 0) == first_run_export(exports@, i as nat),
        decreases n - i,
    {
        if is_run_export_exec(&exports[i]) {
            return Some(i);
        }
        i = i + 1;
    }
    None
}

/// The type index of a function import.
pub open spec fn import_type_index(i: AotImportMetadata) -> u32 {
    match i.desc {
        AotImportDescMetadata::Func(t) => t,
        _ => 0,
    }
}

pub open spec fn hello_host_import_error(m: AotCompiledMetadata) -> Option<Seq<char>> {
    match first_func_import(m.imports@, 0) {
        None => Some("hello-host linker could not find the host import"@),
        Some(k) => {
            let ti = import_type_index(m.imports@[k as int]);
            if ti as nat >= m.types@.len() {
                Some("hello-host import type metadata is missing"@)
            } else if !(m.types@[ti as int].params@ == seq![VALUE_TYPE_I32, VALUE_TYPE_I32]
                && m.types@[ti as int].results@.len() == 0) {
                Some("hello-host linker expects its host import to use the (i32, i32) -> () signature"@)
            } else if first_run_export(m.exports@, 0) is None {
                Some("hello-host guest must export func run"@)
            } else {
                None
            }
        },
    }
}

/// Why a module cannot be packaged as a hello-host guest, if it cannot: the
/// target must be supported, there must be exactly one function import, of
/// type `(i32, i32) -> ()`, and an exported function `run`.
pub open spec fn hello_host_error(
    m: AotCompiledMetadata,
    target: Result<NativePackagingTarget, NativeLinkError>,
) -> Option<Seq<char>> {
    match target {
        Err(e) => Some(e.text()),
        Ok(t) => match host_import_error(m, 1, t) {
            Some(e) => Some(e),
            None => hello_host_import_error(m),
        },
    }
}

pub fn validate_hello_host_metadata(
    metadata: &AotCompiledMetadata,
    target: Result<NativePackagingTarget, NativeLinkError>,
) -> (res: Result<(), NativeLinkError>)
    ensures
        validation_matches(res, hello_host_error(*metadata, target)),
{
    let t = match target {
        Ok(t) => t,
        Err(e) => {
            return Err(e);
        },
    };
    match validate_host_import_metadata(metadata, 1, t) {
        Ok(()) => {},
        Err(e) => {
            return Err(e);
        },
    }
    let k = match find_func_import(&metadata.imports) {
        Some(k) => k,
        None => {
            return Err(NativeLinkError::new(string_of("hello-host linker could not find the host import")));
        },
    };
    let ti = match &metadata.imports[k].desc {
        AotImportDescMetadata::Func(ti) => *ti,
        _ => 0,
    };
    if ti as usize >= metadata.types.len() {
        return Err(NativeLinkError::new(string_of("hello-host import type metadata is missing")));
    }
    let ty = &metadata.types[ti as usize];
    if !(ty.params.len() == 2 && ty.params[0] == VALUE_TYPE_I32 && ty.params[1] == VALUE_TYPE_I32
        && ty.results.len() == 0) {
        assert(!(ty.params@ == seq![VALUE_TYPE_I32, VALUE_TYPE_I32] && ty.results@.len() == 0));
        return Err(NativeLinkError::new(string_of("hello-host linker expects its host import to use the (i32, i32) -> () signature")));
    }
    assert(ty.params@ =~= seq![VALUE_TYPE_I32, VALUE_TYPE_I32]);
    if find_run_export(&metadata.exports).is_none() {
        return Err(NativeLinkError::new(string_of("hello-host guest must export func run")));
    }
    Ok(())
}

/// Whether evaluating an offset expression asks for a global or a function,
/// which the data offsets of packaged host-import modules may not: the
/// instruction decodes, and it is a `global.get` or a `ref.func`.
pub open spec fn offset_reads_state(expr: Seq<u8>) -> bool {
    match spec_eval_const(expr, seq![], seq![], seq![]) {
        Err(ConstExprError::UnknownGlobal(_)) => true,
        Err(ConstExprError::UnknownFunction(_)) => true,
        _ => false,
    }
}

pub open spec fn active_data_offset_result(expr: Seq<u8>) -> Result<usize, Seq<char>> {
    match spec_eval_const(expr, seq![], seq![], seq![]) {
        Err(c) => Err(const_expr_error_text(c)),
        Ok((vals, t)) => if t == VALUE_TYPE_I32 || t == VALUE_TYPE_I64 {
            Ok(
                if vals.len() > 0 {
                    vals[0] as usize
                } else {
                    0
                },
            )
        } else {
            Err("packaged host-import data offsets must evaluate to i32/i64"@)
        },
    }
}

/// The offset of an active data segment, from an expression that reads no
/// global and no function.
pub fn active_data_offset(segment: &AotDataSegmentMetadata) -> (res: Result<usize, NativeLinkError>)
    requires
        !offset_reads_state(segment.offset_expression@),
    ensures
        match active_data_offset_result(segment.offset_expression@) {
            Ok(v) => res == Ok::<usize, NativeLinkError>(v),
            Err(t) => res matches Err(e) && e.text() == t,
        },
{
    let no_types: Vec<crate::aot::AotGlobalTypeMetadata> = Vec::new();
    let no_globals: Vec<LinkedGlobalValue> = Vec::new();
    let no_functions: Vec<crate::aot::AotFunctionMetadata> = Vec::new();
    assert(no_types@ =~= seq![]);
    assert(no_globals@ =~= seq![]);
    assert(no_functions@ =~= seq![]);
    match evaluate_const_expr(
        segment.offset_expression.as_slice(),
        no_types.as_slice(),
        no_globals.as_slice(),
        no_functions.as_slice(),
    ) {
        Err(c) => {
            let mut s = String::new();
            c.write_message(&mut s);
            Err(NativeLinkError::new(s))
        },
        Ok((values, t)) => if t == VALUE_TYPE_I32 || t == VALUE_TYPE_I64 {
            if values.len() > 0 {
                Ok(values[0] as usize)
            } else {
                Ok(0)
            }
        } else {
            Err(NativeLinkError::new(string_of("packaged host-import data offsets must evaluate to i32/i64")))
        },
    }
}

// ---------------------------------------------------------------------------
// Host imports and the hello-host guest
// ---------------------------------------------------------------------------

/// A copy of a byte vector.
pub fn copy_bytes(v: &Vec<u8>) -> (res: Vec<u8>)
    ensures
        res@ == v@,
{
    let mut out: Vec<u8> = Vec::new();
    let n = v.len();
    let mut i: usize = 0;
    while i < n
        invariant
            n == v@.len(),
            i <= n,
            out@ == v@.take(i as int),
        decreases n - i,
    {
        out.push(v[i]);
        assert(out@ =~= v@.take(i + 1));
        i = i + 1;
    }
    assert(v@.take(n as int) =~= v@);
    out
}

/// A copy of a function type.
pub fn copy_function_type(t: &AotFunctionTypeMetadata) -> (res: AotFunctionTypeMetadata)
    ensures
        res.params@ == t.params@,
        res.results@ == t.results@,
        res.param_num_in_u64 == t.param_num_in_u64,
        res.result_num_in_u64 == t.result_num_in_u64,
{
    AotFunctionTypeMetadata {
        params: copy_bytes(&t.params),
        results: copy_bytes(&t.results),
        param_num_in_u64: t.param_num_in_u64,
        result_num_in_u64: t.result_num_in_u64,
    }
}

pub open spec fn not_function_import_text(i: AotImportMetadata) -> Seq<char> {
    "import '"@ + i.module@ + "."@ + i.name@ + "' is not a function import"@
}

impl PackagedHostImportDescriptor {
    /// The descriptor of a function import of a packaged guest, naming the
    /// host symbol that implements it; an import of another kind is refused.
    pub fn from_import_metadata(
        guest_module_name: String,
        import: &AotImportMetadata,
        host_symbol_name: String,
    ) -> (res: Result<Self, NativeLinkError>)
        ensures
            match import.desc {
                AotImportDescMetadata::Func(type_index) => res matches Ok(d) && d.model() == (
                ImportModel {
                    guest_module_name: guest_module_name@,
                    import_module: import.module@,
                    import_name: import.name@,
                    function_import_index: import.index_per_type,
                    type_index,
                    host_symbol_name: host_symbol_name@,
                }),
                _ => res matches Err(e) && e.text() == not_function_import_text(*import),
            },
    {
        match &import.desc {
            AotImportDescMetadata::Func(type_index) => Ok(
                PackagedHostImportDescriptor {
                    guest_module_name,
                    import_module: import.module.clone(),
                    import_name: import.name.clone(),
                    function_import_index: import.index_per_type,
                    type_index: *type_index,
                    host_symbol_name,
                },
            ),
            _ => {
                let mut s = string_of("import '");
                push_str(&mut s, import.module.as_str());
                push_str(&mut s, ".");
                push_str(&mut s, import.name.as_str());
                push_str(&mut s, "' is not a function import");
                Err(NativeLinkError::new(s))
            },
        }
    }
}

/// An active data segment of a hello-host guest: where it goes in memory,
/// and its bytes.
#[derive(Clone, Debug)]
pub struct HelloHostDataSegment {
    pub offset: usize,
    pub init: Vec<u8>,
}

/// A host import of a packaged guest, with its type and trampoline symbol.
#[derive(Clone, Debug)]
pub struct PackagedHostImportSpec {
    pub descriptor: PackagedHostImportDescriptor,
    pub import_type: AotFunctionTypeMetadata,
    pub trampoline_symbol: String,
}

/// What the hello-host link needs of its guest.
#[derive(Clone, Debug)]
pub struct HelloHostSpec {
    pub run_symbol: String,
    pub run_type: AotFunctionTypeMetadata,
    pub memory_len_bytes: u64,
    pub data_segments: Vec<HelloHostDataSegment>,
    pub host_imports: Vec<PackagedHostImportSpec>,
}

pub ghost struct HelloHostModel {
    pub run_symbol: Seq<char>,
    pub run_type_index: u32,
    pub memory_len_bytes: u64,
    pub data_segments: Seq<(usize, Seq<u8>)>,
    pub import: ImportModel,
    pub import_type_index: u32,
    pub trampoline_symbol: Seq<char>,
}

/// Whether the spec built for a guest matches its model: the run and import
/// types are copies of the guest's types at the model's indexes.
pub open spec fn hello_host_matches(h: HelloHostSpec, m: AotCompiledMetadata, model: HelloHostModel) -> bool {
    &&& h.run_symbol@ == model.run_symbol
    &&& model.run_type_index < m.types@.len()
    &&& h.run_type.params@ == m.types@[model.run_type_index as int].params@
    &&& h.run_type.results@ == m.types@[model.run_type_index as int].results@
    &&& h.run_type.param_num_in_u64 == m.types@[model.run_type_index as int].param_num_in_u64
    &&& h.run_type.result_num_in_u64 == m.types@[model.run_type_index as int].result_num_in_u64
    &&& h.memory_len_bytes == model.memory_len_bytes
    &&& h.data_segments@.len() == model.data_segments.len()
    &&& forall|i: int| 0 <= i < model.data_segments.len() ==> (#[trigger] h.data_segments@[i]).offset
        == model.data_segments[i].0 && h.data_segments@[i].init@ == model.data_segments[i].1
    &&& h.host_imports@.len() == 1
    &&& h.host_imports@[0].descriptor.model() == model.import
    &&& model.import_type_index < m.types@.len()
    &&& h.host_imports@[0].import_type.params@ == m.types@[model.import_type_index as int].params@
    &&& h.host_imports@[0].import_type.results@ == m.types@[model.import_type_index as int].results@
    &&& h.host_imports@[0].import_type.param_num_in_u64 == m.types@[model.import_type_index as int].param_num_in_u64
    &&& h.host_imports@[0].import_type.result_num_in_u64 == m.types@[model.import_type_index as int].result_num_in_u64
    &&& h.host_imports@[0].trampoline_symbol@ == model.trampoline_symbol
}

/// The data segments of a hello-host guest from `i` on, appended to `acc`:
/// each must be active, with an offset as `active_data_offset` gives it.
pub open spec fn hello_host_segments_from(
    m: AotCompiledMetadata,
    acc: Seq<(usize, Seq<u8>)>,
    i: nat,
) -> Result<Seq<(usize, Seq<u8>)>, Seq<char>>
    decreases m.data_segments@.len() - i,
{
    if i >= m.data_segments@.len() {
        Ok(acc)
    } else {
        let seg = m.data_segments@[i as int];
        if seg.passive {
            Err("hello-host linker does not support passive data segments"@)
        } else {
            match active_data_offset_result(seg.offset_expression@) {
                Err(t) => Err(t),
                Ok(off) => hello_host_segments_from(m, acc.push((off, seg.init@)), i + 1),
            }
        }
    }
}

/// Whether reading a hello-host guest's data segments from `i` on comes to
/// an offset that reads a global or a function: every segment before it is
/// active and has a valid offset.
pub open spec fn segments_reach_state_read(m: AotCompiledMetadata, i: nat) -> bool
    decreases m.data_segments@.len() - i,
{
    if i >= m.data_segments@.len() {
        false
    } else {
        let seg = m.data_segments@[i as int];
        if seg.passive {
            false
        } else if offset_reads_state(seg.offset_expression@) {
            true
        } else {
            match active_data_offset_result(seg.offset_expression@) {
                Err(_) => false,
                Ok(_) => segments_reach_state_read(m, i + 1),
            }
        }
    }
}

pub open spec fn max_u32(a: u32, b: u32) -> u32 {
    if a >= b {
        a
    } else {
        b
    }
}

/// What the hello-host link needs of a guest, or why it cannot be linked.
pub open spec fn hello_host_result(
    guest: Seq<char>,
    m: AotCompiledMetadata,
    target: Result<NativePackagingTarget, NativeLinkError>,
) -> Result<HelloHostModel, Seq<char>> {
    match hello_host_error(m, target) {
        Some(e) => Err(e),
        None => {
            // validation found the function import, its type and an export `run`
            let k = first_func_import(m.imports@, 0)->0;
            let import = m.imports@[k as int];
            let import_ti = import_type_index(import);
            let run = m.exports@[first_run_export(m.exports@, 0)->0 as int];
            match first_function_slot(m.functions@, run.index, 0) {
                None => Err("hello-host run export must resolve to a local function"@),
                Some(slot) => {
                    let run_ti = m.functions@[slot as int].type_index;
                    if run_ti as nat >= m.types@.len() {
                        Err("hello-host run export is missing type metadata"@)
                    } else if m.types@[run_ti as int].params@.len() != 0
                        || m.types@[run_ti as int].results@.len() != 0 {
                        Err("hello-host run export must use the () -> () signature"@)
                    } else {
                        match m.memory {
                            None => Err("hello-host guest must define one local memory"@),
                            Some(mem) => match hello_host_segments_from(m, seq![], 0) {
                                Err(t) => Err(t),
                                Ok(segments) => Ok(
                                    HelloHostModel {
                                        run_symbol: linked_symbol_text(m.module_id@, run.index),
                                        run_type_index: run_ti,
                                        memory_len_bytes: (max_u32(mem.cap, mem.min) * 65536) as u64,
                                        data_segments: segments,
                                        import: ImportModel {
                                            guest_module_name: guest,
                                            import_module: import.module@,
                                            import_name: import.name@,
                                            function_import_index: import.index_per_type,
                                            type_index: import_ti,
                                            host_symbol_name: hello_host_handler_symbol_text(
                                                import.module@,
                                                import.name@,
                                            ),
                                        },
                                        import_type_index: import_ti,
                                        trampoline_symbol: packaged_host_import_symbol_text(
                                            import.index_per_type,
                                            import.module@,
                                            import.name@,
                                        ),
                                    },
                                ),
                            },
                        }
                    }
                },
            }
        },
    }
}

/// Whether the checks of a hello-host guest all pass up to its data
/// segments: it validates, its `run` export is a local `() -> ()` function,
/// and it has a memory.
pub open spec fn hello_host_reaches_segments(
    m: AotCompiledMetadata,
    target: Result<NativePackagingTarget, NativeLinkError>,
) -> bool {
    &&& hello_host_error(m, target) is None
    &&& {
        let run = m.exports@[first_run_export(m.exports@, 0)->0 as int];
        match first_function_slot(m.functions@, run.index, 0) {
            None => false,
            Some(slot) => {
                let ti = m.functions@[slot as int].type_index;
                &&& (ti as nat) < m.types@.len()
                &&& m.types@[ti as int].params@.len() == 0
                &&& m.types@[ti as int].results@.len() == 0
                &&& m.memory is Some
            },
        }
    }
}

/// The guests on which building the hello-host spec stops on a data offset
/// that reads a global or a function, which it does not support.
pub open spec fn hello_host_reads_state(
    m: AotCompiledMetadata,
    target: Result<NativePackagingTarget, NativeLinkError>,
) -> bool {
    hello_host_reaches_segments(m, target) && segments_reach_state_read(m, 0)
}

proof fn lemma_first_func_import(imports: Seq<AotImportMetadata>, from: nat)
    ensures
        first_func_import(imports, from) matches Some(k) ==> from <= k < imports.len()
            && imports[k as int].desc is Func,
    decreases imports.len() - from,
{
    if from < imports.len() && !(imports[from as int].desc is Func) {
        lemma_first_func_import(imports, from + 1);
    }
}

fn hello_host_segments(metadata: &AotCompiledMetadata) -> (res: Result<Vec<HelloHostDataSegment>, NativeLinkError>)
    requires
        !segments_reach_state_read(*metadata, 0),
    ensures
        match hello_host_segments_from(*metadata, seq![], 0) {
            Ok(segs) => res matches Ok(v) && v@.len() == segs.len() && forall|i: int|
                0 <= i < segs.len() ==> (#[trigger] v@[i]).offset == segs[i].0 && v@[i].init@
                    == segs[i].1,
            Err(t) => res matches Err(e) && e.text() == t,
        },
{
    let n = metadata.data_segments.len();
    let mut out: Vec<HelloHostDataSegment> = Vec::new();
    let ghost mut acc: Seq<(usize, Seq<u8>)> = seq![];
    let mut i: usize = 0;
    while i < n
        invariant
            n == metadata.data_segments@.len(),
            !segments_reach_state_read(*metadata, i as nat),
            i <= n,
            out@.len() == acc.len(),
            forall|j: int| 0 <= j < acc.len() ==> (#[trigger] out@[j]).offset == acc[j].0
                && out@[j].init@ == acc[j].1,
            hello_host_segments_from(*metadata, seq![], 0) == hello_host_segments_from(
                *metadata,
                acc,
                i as nat,
            ),
        decreases n - i,
    {
        let segment = &metadata.data_segments[i];
        if segment.passive {
            return Err(NativeLinkError::new(string_of("hello-host linker does not support passive data segments")));
        }
        let offset = match active_data_offset(segment) {
            Ok(o) => o,
            Err(e) => {
                return Err(e);
            },
        };
        out.push(HelloHostDataSegment { offset, init: copy_bytes(&segment.init) });
        proof {
            acc = acc.push((offset, segment.init@));
        }
        i = i + 1;
    }
    Ok(out)
}

/// Whether evaluating an offset expression asks for a global or a function,
/// as `offset_reads_state` says.
pub fn offset_reads_state_exec(expr: &[u8]) -> (res: bool)
    ensures
        res == offset_reads_state(expr@),
{
    let no_types: Vec<crate::aot::AotGlobalTypeMetadata> = Vec::new();
    let no_globals: Vec<LinkedGlobalValue> = Vec::new();
    let no_functions: Vec<crate::aot::AotFunctionMetadata> = Vec::new();
    assert(no_types@ =~= seq![]);
    assert(no_globals@ =~= seq![]);
    assert(no_functions@ =~= seq![]);
    match evaluate_const_expr(expr, no_types.as_slice(), no_globals.as_slice(), no_functions.as_slice()) {
        Err(ConstExprError::UnknownGlobal(_)) => true,
        Err(ConstExprError::UnknownFunction(_)) => true,
        _ => false,
    }
}

fn segments_reach_state_read_exec(metadata: &AotCompiledMetadata) -> (res: bool)
    ensures
        res == segments_reach_state_read(*metadata, 0),
{
    let n = metadata.data_segments.len();
    let mut i: usize = 0;
    while i < n
        invariant
            n == metadata.data_segments@.len(),
            i <= n,
            segments_reach_state_read(*metadata, 0) == segments_reach_state_read(*metadata, i as nat),
        decreases n - i,
    {
        let segment = &metadata.data_segments[i];
        if segment.passive {
            return false;
        }
        if offset_reads_state_exec(segment.offset_expression.as_slice()) {
            return true;
        }
        match active_data_offset(segment) {
            Err(_) => {
                return false;
            },
            Ok(_) => {},
        }
        i = i + 1;
    }
    false
}

/// Whether building the hello-host spec of a guest would stop on a data
/// offset that reads a global or a function, as `hello_host_reads_state`
/// says.
pub fn hello_host_reads_state_exec(
    metadata: &AotCompiledMetadata,
    target: Result<NativePackagingTarget, NativeLinkError>,
) -> (res: bool)
    ensures
        res == hello_host_reads_state(*metadata, target),
{
    proof {
        lemma_first_run_export(metadata.exports@, 0);
    }
    match validate_hello_host_metadata(metadata, target) {
        Ok(()) => {},
        Err(_) => {
            return false;
        },
    }
    let r = match find_run_export(&metadata.exports) {
        Some(r) => r,
        None => {
            return false;
        },
    };
    let run_index = metadata.exports[r].index;
    proof {
        crate::const_expr::lemma_first_function_slot_bounds(metadata.functions@, run_index, 0);
    }
    let slot = match find_function(metadata.functions.as_slice(), run_index) {
        Some(slot) => slot,
        None => {
            return false;
        },
    };
    let ti = metadata.functions[slot].type_index;
    if ti as usize >= metadata.types.len() {
        return false;
    }
    if metadata.types[ti as usize].params.len() != 0 || metadata.types[ti as usize].results.len() != 0 {
        return false;
    }
    if metadata.memory.is_none() {
        return false;
    }
    segments_reach_state_read_exec(metadata)
}

impl HelloHostSpec {
    /// What the hello-host link needs of a guest: its run function and type,
    /// its memory size, its active data segments and its one host import, or
    /// the first reason it cannot be linked.
    pub fn from_metadata(
        guest_module_name: &str,
        metadata: &AotCompiledMetadata,
        target: Result<NativePackagingTarget, NativeLinkError>,
    ) -> (res: Result<Self, NativeLinkError>)
        requires
            !hello_host_reads_state(*metadata, target),
        ensures
            match hello_host_result(guest_module_name@, *metadata, target) {
                Ok(model) => res matches Ok(h) && hello_host_matches(h, *metadata, model),
                Err(t) => res matches Err(e) && e.text() == t,
            },
    {
        proof {
            lemma_first_func_import(metadata.imports@, 0);
            lemma_first_run_export(metadata.exports@, 0);
            crate::const_expr::lemma_first_function_slot_bounds(metadata.functions@, 0, 0);
        }
        match validate_hello_host_metadata(metadata, target) {
            Ok(()) => {},
            Err(e) => {
                return Err(e);
            },
        }
        let k = match find_func_import(&metadata.imports) {
            Some(k) => k,
            None => {
                return Err(NativeLinkError::new(string_of("hello-host guest must import one host function")));
            },
        };
        let host_import = &metadata.imports[k];
        let import_ti = match &host_import.desc {
            AotImportDescMetadata::Func(ti) => *ti,
            _ => 0,
        };
        if import_ti as usize >= metadata.types.len() {
            return Err(NativeLinkError::new(string_of("hello-host import type metadata is missing")));
        }
        let import_type = copy_function_type(&metadata.types[import_ti as usize]);
        let r = match find_run_export(&metadata.exports) {
            Some(r) => r,
            None => {
                return Err(NativeLinkError::new(string_of("hello-host guest must export func run")));
            },
        };
        let run_index = metadata.exports[r].index;
        proof {
            crate::const_expr::lemma_first_function_slot_bounds(metadata.functions@, run_index, 0);
        }
        let slot = match find_function(metadata.functions.as_slice(), run_index) {
            Some(slot) => slot,
            None => {
                return Err(NativeLinkError::new(string_of("hello-host run export must resolve to a local function")));
            },
        };
        let run_ti = metadata.functions[slot].type_index;
        if run_ti as usize >= metadata.types.len() {
            return Err(NativeLinkError::new(string_of("hello-host run export is missing type metadata")));
        }
        let run_type = copy_function_type(&metadata.types[run_ti as usize]);
        if run_type.params.len() != 0 || run_type.results.len() != 0 {
            return Err(NativeLinkError::new(string_of("hello-host run export must use the () -> () signature")));
        }
        let (min, cap) = match &metadata.memory {
            Some(mem) => (mem.min, mem.cap),
            None => {
                return Err(NativeLinkError::new(string_of("hello-host guest must define one local memory")));
            },
        };
        let pages: u32 = if cap >= min {
            cap
        } else {
            min
        };
        let memory_len_bytes: u64 = pages as u64 * 65536;
        let data_segments = match hello_host_segments(metadata) {
            Ok(d) => d,
            Err(e) => {
                return Err(e);
            },
        };
        let run_symbol = linked_wasm_function_symbol_name(&metadata.module_id, run_index);
        let handler = hello_host_handler_symbol_name(host_import.module.as_str(), host_import.name.as_str());
        let descriptor = match PackagedHostImportDescriptor::from_import_metadata(
            string_of(guest_module_name),
            host_import,
            handler,
        ) {
            Ok(d) => d,
            Err(e) => {
                return Err(e);
            },
        };
        let trampoline_symbol = packaged_host_import_symbol_name(
            host_import.index_per_type,
            host_import.module.as_str(),
            host_import.name.as_str(),
        );
        let mut host_imports: Vec<PackagedHostImportSpec> = Vec::new();
        host_imports.push(PackagedHostImportSpec { descriptor, import_type, trampoline_symbol });
        Ok(HelloHostSpec { run_symbol, run_type, memory_len_bytes, data_segments, host_imports })
    }
}

// ---------------------------------------------------------------------------
// C ABI exports
// ---------------------------------------------------------------------------

/// The C ABI export of a function: its index, wrapper symbol and type.
pub ghost struct CAbiExportModel {
    pub wasm_function_index: u32,
    pub symbol_name: Seq<char>,
    pub params: Seq<u8>,
    pub results: Seq<u8>,
}

impl NativeCAbiExport {
    pub open spec fn model(&self) -> CAbiExportModel {
        CAbiExportModel {
            wasm_function_index: self.wasm_function_index,
            symbol_name: self.symbol_name@,
            params: self.params@,
            results: self.results@,
        }
    }
}

/// The C ABI exports of the first `k` functions: one for each function whose
/// type is known and C ABI compatible, in order.
pub open spec fn cabi_exports(name: Seq<char>, m: AotCompiledMetadata, k: nat) -> Seq<CAbiExportModel>
    decreases k,
{
    if k == 0 {
        seq![]
    } else {
        let prev = cabi_exports(name, m, (k - 1) as nat);
        let f = m.functions@[k - 1];
        if (f.type_index as nat) < m.types@.len() && is_c_abi_function_type(
            m.types@[f.type_index as int],
        ) {
            prev.push(
                CAbiExportModel {
                    wasm_function_index: f.wasm_function_index,
                    symbol_name: cabi_wrapper_symbol_text(name, f.wasm_function_index),
                    params: m.types@[f.type_index as int].params@,
                    results: m.types@[f.type_index as int].results@,
                },
            )
        } else {
            prev
        }
    }
}

/// The C ABI exports of a module, all under the given module name.
pub fn module_exports(module_name: &str, metadata: &AotCompiledMetadata) -> (res: Vec<NativeCAbiExport>)
    ensures
        res@.len() == cabi_exports(module_name@, *metadata, metadata.functions@.len()).len(),
        forall|i: int| 0 <= i < res@.len() ==> (#[trigger] res@[i]).model() == cabi_exports(
            module_name@,
            *metadata,
            metadata.functions@.len(),
        )[i] && res@[i].module_name@ == module_name@,
{
    let n = metadata.functions.len();
    let mut out: Vec<NativeCAbiExport> = Vec::new();
    let mut i: usize = 0;
    while i < n
        invariant
            n == metadata.functions@.len(),
            i <= n,
            out@.len() == cabi_exports(module_name@, *metadata, i as nat).len(),
            forall|j: int| 0 <= j < out@.len() ==> (#[trigger] out@[j]).model() == cabi_exports(
                module_name@,
                *metadata,
                i as nat,
            )[j] && out@[j].module_name@ == module_name@,
        decreases n - i,
    {
        let function = &metadata.functions[i];
        let ti = function.type_index as usize;
        if ti < metadata.types.len() {
            let ty = &metadata.types[ti];
            if function_type_supported(ty) {
                out.push(
                    NativeCAbiExport {
                        module_name: string_of(module_name),
                        wasm_function_index: function.wasm_function_index,
                        symbol_name: cabi_wrapper_symbol_name(module_name, function.wasm_function_index),
                        params: copy_bytes(&ty.params),
                        results: copy_bytes(&ty.results),
                    },
                );
            }
        }
        i = i + 1;
    }
    out
}

// ---------------------------------------------------------------------------
// C sources
// ---------------------------------------------------------------------------

pub open spec fn hello_host_handler_source_text(symbol: Seq<char>) -> Seq<char> {
    "#include <stdint.h>\n#include <stddef.h>\n#include <stdio.h>\n\nint "@ + symbol
        + "(unsigned char* module_context, unsigned char* guest_memory, size_t guest_memory_len, uint64_t* stack_words, size_t stack_word_count) {\n    (void)module_context;\n    if (stack_word_count < 2u) { return 1; }\n    uint32_t ptr = (uint32_t)stack_words[0];\n    uint32_t len = (uint32_t)stack_words[1];\n    if ((uint64_t)ptr + (uint64_t)len > (uint64_t)guest_memory_len) { return 2; }\n    fwrite(guest_memory + ptr, 1u, len, stdout);\n    fflush(stdout);\n    return 0;\n}\n"@
}

/// The C source of the hello-host handler: it writes the guest memory range
/// given by its two stack words to standard output.
pub fn build_hello_host_handler_source(symbol_name: &str) -> (res: String)
    ensures
        res@ == hello_host_handler_source_text(symbol_name@),
{
    let mut s = string_of("#include <stdint.h>\n#include <stddef.h>\n#include <stdio.h>\n\nint ");
    push_str(&mut s, symbol_name);
    push_str(&mut s, "(unsigned char* module_context, unsigned char* guest_memory, size_t guest_memory_len, uint64_t* stack_words, size_t stack_word_count) {\n    (void)module_context;\n    if (stack_word_count < 2u) { return 1; }\n    uint32_t ptr = (uint32_t)stack_words[0];\n    uint32_t len = (uint32_t)stack_words[1];\n    if ((uint64_t)ptr + (uint64_t)len > (uint64_t)guest_memory_len) { return 2; }\n    fwrite(guest_memory + ptr, 1u, len, stdout);\n    fflush(stdout);\n    return 0;\n}\n");
    s
}

} // verus!
