//! The decisions of a linked AOT module before it enters native code: where
//! its text starts, which function an export or the start function names,
//! and what a call into a function needs (its code, its entry preamble and
//! its stack of parameter and result slots); and what the results of a
//! start function must be.

use vstd::prelude::*;
use crate::aot::{AotCompiledMetadata, AotExportMetadata, AotFunctionMetadata, EXTERN_TYPE_FUNC};
use crate::call_engine::CallEngineError;
use crate::const_expr::{first_function_slot, find_function, lemma_first_function_slot_bounds};
use crate::text::{push_str, push_decimal, decimal, string_of, str_equal};

verus! {

/// Why a linked module could not be built or called: its metadata is
/// wrong, it asks for something the linked runtime does not do, its entry
/// preambles did not compile (the engine's message), or the call failed.
#[derive(Clone, Debug, PartialEq, Eq)]
pub enum LinkedModuleError {
    InvalidMetadata(String),
    Unsupported(String),
    Compile(String),
    Call(CallEngineError),
}

/// The text of a metadata error.
pub open spec fn invalid_metadata(res: LinkedModuleError, text: Seq<char>) -> bool {
    res matches LinkedModuleError::InvalidMetadata(m) && m@ == text
}

/// The text of an unsupported-request error.
pub open spec fn unsupported(res: LinkedModuleError, text: Seq<char>) -> bool {
    res matches LinkedModuleError::Unsupported(m) && m@ == text
}

/// The name as Rust's `Debug` prints a string: quoted, with escapes.
pub uninterp spec fn debug_text(s: Seq<char>) -> Seq<char>;

/// The `Debug` rendering of a string (`format!("{:?}", ..)` on a `str`),
/// named by `debug_text`; nothing more is claimed of it here.
#[verifier::external_body]
fn debug_quoted(s: &str) -> (res: String)
    ensures
        res@ == debug_text(s@),
{
    format!("{s:?}")
}

/// Where the text of a linked module starts, given where its first local
/// function was linked: that address less the function's offset in the
/// text.
pub fn text_base_for_first_local_function(
    metadata: &AotCompiledMetadata,
    first_local_function_ptr: usize,
) -> (res: Result<usize, LinkedModuleError>)
    ensures
        metadata.functions@.len() == 0 ==> (res matches Err(e) && invalid_metadata(
            e,
            "linked module metadata does not describe any local functions"@,
        )),
        metadata.functions@.len() > 0 && first_local_function_ptr < metadata.functions@[0].executable_offset
            ==> (res matches Err(e) && invalid_metadata(
            e,
            "linked function pointer is below the recorded text offset"@,
        )),
        metadata.functions@.len() > 0 && first_local_function_ptr >= metadata.functions@[0].executable_offset
            ==> res == Ok::<usize, LinkedModuleError>(
            (first_local_function_ptr - metadata.functions@[0].executable_offset) as usize,
        ),
{
    if metadata.functions.len() == 0 {
        proof {
            reveal_strlit("linked module metadata does not describe any local functions");
        }
        return Err(LinkedModuleError::InvalidMetadata(
            string_of("linked module metadata does not describe any local functions"),
        ));
    }
    let offset = metadata.functions[0].executable_offset;
    if first_local_function_ptr < offset {
        proof {
            reveal_strlit("linked function pointer is below the recorded text offset");
        }
        return Err(LinkedModuleError::InvalidMetadata(
            string_of("linked function pointer is below the recorded text offset"),
        ));
    }
    Ok(first_local_function_ptr - offset)
}

/// The first export, from `i` on, with this name.
pub open spec fn first_export_named(exports: Seq<AotExportMetadata>, name: Seq<char>, i: nat) -> Option<nat>
    decreases exports.len() - i,
{
    if i >= exports.len() {
        None
    } else if exports[i as int].name@ == name {
        Some(i)
    } else {
        first_export_named(exports, name, i + 1)
    }
}

fn find_export_named(exports: &Vec<AotExportMetadata>, name: &str) -> (res: Option<usize>)
    ensures
        first_export_named(exports@, name@, 0) == match res {
            Some(i) => Some(i as nat),
            None => None::<nat>,
        },
{
    let n = exports.len();
    let mut i: usize = 0;
    while i < n
        invariant
            n == exports@.len(),
            i <= n,
            first_export_named(exports@, name@, 0) == first_export_named(exports@, name@, i as nat),
        decreases n - i,
    {
        if str_equal(exports[i].name.as_str(), name) {
            return Some(i);
        }
        i = i + 1;
    }
    None
}

pub open spec fn no_export_text(quoted: Seq<char>) -> Seq<char> {
    "linked module metadata has no export named "@ + quoted
}

pub open spec fn not_a_function_text(quoted: Seq<char>) -> Seq<char> {
    "export "@ + quoted + " is not a function"@
}

/// The error for a missing export, whose name `Debug` renders as `quoted`.
pub fn no_export_error(quoted: &str) -> (res: LinkedModuleError)
    ensures
        invalid_metadata(res, no_export_text(quoted@)),
{
    let mut s = string_of("linked module metadata has no export named ");
    push_str(&mut s, quoted);
    LinkedModuleError::InvalidMetadata(s)
}

/// The error for an export that is not a function, whose name `Debug`
/// renders as `quoted`.
pub fn not_a_function_error(quoted: &str) -> (res: LinkedModuleError)
    ensures
        unsupported(res, not_a_function_text(quoted@)),
{
    let mut s = string_of("export ");
    push_str(&mut s, quoted);
    push_str(&mut s, " is not a function");
    LinkedModuleError::Unsupported(s)
}

/// The function that `call_export` calls for the export `name`: the first
/// export of that name, which must be a function.
pub fn export_call_target(metadata: &AotCompiledMetadata, name: &str) -> (res: Result<u32, LinkedModuleError>)
    ensures
        match first_export_named(metadata.exports@, name@, 0) {
            None => res matches Err(e) && invalid_metadata(e, no_export_text(debug_text(name@))),
            Some(k) => if metadata.exports@[k as int].ty != EXTERN_TYPE_FUNC {
                res matches Err(e) && unsupported(e, not_a_function_text(debug_text(name@)))
            } else {
                res == Ok::<u32, LinkedModuleError>(metadata.exports@[k as int].index)
            },
        },
{
    proof {
        lemma_first_export_named_bounds(metadata.exports@, name@, 0);
    }
    match find_export_named(&metadata.exports, name) {
        None => {
            let quoted = debug_quoted(name);
            Err(no_export_error(quoted.as_str()))
        },
        Some(k) => {
            let export = &metadata.exports[k];
            if export.ty != EXTERN_TYPE_FUNC {
                let quoted = debug_quoted(name);
                Err(not_a_function_error(quoted.as_str()))
            } else {
                Ok(export.index)
            }
        },
    }
}

proof fn lemma_first_export_named_bounds(exports: Seq<AotExportMetadata>, name: Seq<char>, i: nat)
    ensures
        first_export_named(exports, name, i) matches Some(k) ==> i <= k < exports.len(),
    decreases exports.len() - i,
{
    if i < exports.len() && exports[i as int].name@ != name {
        lemma_first_export_named_bounds(exports, name, i + 1);
    }
}

/// Whether an export is the function `_start`.
pub open spec fn is_start_export(e: AotExportMetadata) -> bool {
    e.ty == EXTERN_TYPE_FUNC && e.name@ == "_start"@
}

/// The first `_start` function export, from `i` on.
pub open spec fn first_start_export(exports: Seq<AotExportMetadata>, i: nat) -> Option<nat>
    decreases exports.len() - i,
{
    if i >= exports.len() {
        None
    } else if is_start_export(exports[i as int]) {
        Some(i)
    } else {
        first_start_export(exports, i + 1)
    }
}

/// The function that `start` runs: none when the module has a start
/// section, which ran when the module was built; else the function that the
/// first `_start` function export names, which must exist.
pub fn start_target(metadata: &AotCompiledMetadata) -> (res: Result<Option<u32>, LinkedModuleError>)
    ensures
        metadata.start_function_index is Some ==> res == Ok::<Option<u32>, LinkedModuleError>(None),
        metadata.start_function_index is None ==> match first_start_export(metadata.exports@, 0) {
            None => res matches Err(e) && invalid_metadata(e, "linked module metadata has no start function"@),
            Some(k) => res == Ok::<Option<u32>, LinkedModuleError>(Some(metadata.exports@[k as int].index)),
        },
{
    if metadata.start_function_index.is_some() {
        return Ok(None);
    }
    let n = metadata.exports.len();
    let mut i: usize = 0;
    while i < n
        invariant
            n == metadata.exports@.len(),
            i <= n,
            metadata.start_function_index is None,
            first_start_export(metadata.exports@, 0) == first_start_export(metadata.exports@, i as nat),
        decreases n - i,
    {
        let export = &metadata.exports[i];
        proof {
            reveal_strlit("_start");
        }
        if export.ty == EXTERN_TYPE_FUNC && str_equal(export.name.as_str(), "_start") {
            return Ok(Some(export.index));
        }
        i = i + 1;
    }
    proof {
        reveal_strlit("linked module metadata has no start function");
    }
    Err(LinkedModuleError::InvalidMetadata(string_of("linked module metadata has no start function")))
}

/// What a call into a linked function needs: the address of its code and
/// of its type's entry preamble, how many parameter and result slots it
/// has, and the stack of slots that the call starts with.
pub struct LinkedCall {
    pub executable_ptr: usize,
    pub preamble_ptr: usize,
    pub param_slots: usize,
    pub result_slots: usize,
    pub stack: Vec<u64>,
}

pub open spec fn no_local_function_text(index: u32) -> Seq<char> {
    "linked module metadata has no local function for wasm index "@ + decimal(index as nat)
}

pub open spec fn missing_type_text(type_index: u32) -> Seq<char> {
    "linked module metadata is missing type "@ + decimal(type_index as nat)
}

pub open spec fn arity_text(index: u32, expected: usize, got: usize) -> Seq<char> {
    "function "@ + decimal(index as nat) + " expects "@ + decimal(expected as nat) + " parameter slots, got "@
        + decimal(got as nat)
}

pub open spec fn missing_preamble_text(type_index: u32) -> Seq<char> {
    "linked module metadata is missing an entry preamble for type "@ + decimal(type_index as nat)
}

/// The entry preamble of a type, in a preamble text of `len` bytes at
/// `base`: at its offset, when the type has one inside the text.
pub open spec fn preamble_at(base: usize, len: usize, offsets: Seq<usize>, type_index: u32) -> Option<usize> {
    if (type_index as nat) < offsets.len() && offsets[type_index as int] < len {
        Some((base + offsets[type_index as int]) as usize)
    } else {
        None
    }
}

/// Whether the addresses of a function's code fit in the address space.
pub open spec fn code_fits(m: AotCompiledMetadata, text_base: usize, index: u32) -> bool {
    first_function_slot(m.functions@, index, 0) matches Some(s) ==> text_base + m.functions@[s as int].executable_offset
        <= usize::MAX
}

/// What preparing a call into the local function with wasm index `index`
/// gives: its function and type must be in the metadata, the parameters must
/// fill its parameter slots exactly, and its type must have an entry
/// preamble; the stack holds the parameters, then zeros up to the larger of
/// the parameter and result slot counts.
pub open spec fn linked_call_result(
    res: Result<LinkedCall, LinkedModuleError>,
    metadata: AotCompiledMetadata,
    text_base: usize,
    preambles_base: usize,
    preambles_len: usize,
    preamble_offsets: Seq<usize>,
    index: u32,
    params: Seq<u64>,
) -> bool {
    match first_function_slot(metadata.functions@, index, 0) {
        None => res matches Err(e) && invalid_metadata(e, no_local_function_text(index)),
        Some(s) => {
            let f = metadata.functions@[s as int];
            if f.type_index as nat >= metadata.types@.len() {
                res matches Err(e) && invalid_metadata(e, missing_type_text(f.type_index))
            } else {
                let ty = metadata.types@[f.type_index as int];
                if params.len() != ty.param_num_in_u64 {
                    res matches Err(e) && unsupported(e, arity_text(index, ty.param_num_in_u64, params.len() as usize))
                } else {
                    match preamble_at(preambles_base, preambles_len, preamble_offsets, f.type_index) {
                        None => res matches Err(e) && invalid_metadata(e, missing_preamble_text(f.type_index)),
                        Some(p) => res matches Ok(call) && {
                            let slots = if ty.param_num_in_u64 >= ty.result_num_in_u64 {
                                ty.param_num_in_u64
                            } else {
                                ty.result_num_in_u64
                            };
                            &&& call.executable_ptr == text_base + f.executable_offset
                            &&& call.preamble_ptr == p
                            &&& call.param_slots == ty.param_num_in_u64
                            &&& call.result_slots == ty.result_num_in_u64
                            &&& call.stack@ == params + Seq::new((slots - params.len()) as nat, |i: int| 0u64)
                        },
                    }
                }
            }
        },
    }
}

/// Whether every local function's code address fits in the address space.
pub open spec fn all_code_fits(m: AotCompiledMetadata, text_base: usize) -> bool {
    forall|i: int| 0 <= i < m.functions@.len() ==> text_base + (#[trigger] m.functions@[i]).executable_offset <= usize::MAX
}

/// Prepares a call into the local function with wasm index `index`: its
/// function and type must be in the metadata, the parameters must fill its
/// parameter slots exactly, and its type must have an entry preamble; the
/// stack holds the parameters, then zeros up to the larger of the parameter
/// and result slot counts.
pub fn prepare_linked_call(
    metadata: &AotCompiledMetadata,
    text_base: usize,
    preambles_base: usize,
    preambles_len: usize,
    preamble_offsets: &[usize],
    index: u32,
    params: &[u64],
) -> (res: Result<LinkedCall, LinkedModuleError>)
    requires
        code_fits(*metadata, text_base, index),
        preambles_base + preambles_len <= usize::MAX,
    ensures
        linked_call_result(res, *metadata, text_base, preambles_base, preambles_len, preamble_offsets@, index, params@),
{
    proof {
        lemma_first_function_slot_bounds(metadata.functions@, index, 0);
    }
    let slot = match find_function(metadata.functions.as_slice(), index) {
        Some(s) => s,
        None => {
            let mut s = string_of("linked module metadata has no local function for wasm index ");
            push_decimal(&mut s, index as u64);
            return Err(LinkedModuleError::InvalidMetadata(s));
        },
    };
    let function: &AotFunctionMetadata = &metadata.functions[slot];
    let type_index = function.type_index;
    if type_index as usize >= metadata.types.len() {
        let mut s = string_of("linked module metadata is missing type ");
        push_decimal(&mut s, type_index as u64);
        return Err(LinkedModuleError::InvalidMetadata(s));
    }
    let ty = &metadata.types[type_index as usize];
    if params.len() != ty.param_num_in_u64 {
        let mut s = string_of("function ");
        push_decimal(&mut s, index as u64);
        push_str(&mut s, " expects ");
        push_decimal(&mut s, ty.param_num_in_u64 as u64);
        push_str(&mut s, " parameter slots, got ");
        push_decimal(&mut s, params.len() as u64);
        return Err(LinkedModuleError::Unsupported(s));
    }
    let ti = type_index as usize;
    if ti >= preamble_offsets.len() || preamble_offsets[ti] >= preambles_len {
        let mut s = string_of("linked module metadata is missing an entry preamble for type ");
        push_decimal(&mut s, type_index as u64);
        return Err(LinkedModuleError::InvalidMetadata(s));
    }
    let preamble_ptr = preambles_base + preamble_offsets[ti];
    let executable_ptr = text_base + function.executable_offset;
    let slots = if ty.param_num_in_u64 >= ty.result_num_in_u64 {
        ty.param_num_in_u64
    } else {
        ty.result_num_in_u64
    };
    let mut stack: Vec<u64> = Vec::new();
    let n = params.len();
    let mut i: usize = 0;
    while i < slots
        invariant
            n == params@.len(),
            n <= slots,
            i <= slots,
            stack@.len() == i,
            forall|j: int| 0 <= j < i ==> #[trigger] stack@[j] == if j < n {
                params@[j]
            } else {
                0u64
            },
        decreases slots - i,
    {
        if i < n {
            stack.push(params[i]);
        } else {
            stack.push(0);
        }
        i = i + 1;
    }
    assert(stack@ =~= params@ + Seq::new((slots - params@.len()) as nat, |i: int| 0u64));
    Ok(LinkedCall {
        executable_ptr,
        preamble_ptr,
        param_slots: ty.param_num_in_u64,
        result_slots: ty.result_num_in_u64,
        stack,
    })
}

/// A start function returns nothing: any result is an error.
pub fn expect_no_results(results: &[u64]) -> (res: Result<(), LinkedModuleError>)
    ensures
        results@.len() == 0 ==> res is Ok,
        results@.len() > 0 ==> (res matches Err(e) && unsupported(e, "start functions must not return values"@)),
{
    if results.len() == 0 {
        Ok(())
    } else {
        proof {
            reveal_strlit("start functions must not return values");
        }
        Err(LinkedModuleError::Unsupported(string_of("start functions must not return values")))
    }
}

proof fn lemma_all_code_fits(m: AotCompiledMetadata, text_base: usize, index: u32)
    requires
        all_code_fits(m, text_base),
    ensures
        code_fits(m, text_base, index),
{
    lemma_first_function_slot_bounds(m.functions@, index, 0);
}

/// The call that `call_export` makes for the export `name`: the export's
/// function, prepared as `prepare_linked_call` does.
pub fn plan_export_call(
    metadata: &AotCompiledMetadata,
    text_base: usize,
    preambles_base: usize,
    preambles_len: usize,
    preamble_offsets: &[usize],
    name: &str,
    params: &[u64],
) -> (res: Result<LinkedCall, LinkedModuleError>)
    requires
        all_code_fits(*metadata, text_base),
        preambles_base + preambles_len <= usize::MAX,
    ensures
        match first_export_named(metadata.exports@, name@, 0) {
            None => res matches Err(e) && invalid_metadata(e, no_export_text(debug_text(name@))),
            Some(k) => if metadata.exports@[k as int].ty != EXTERN_TYPE_FUNC {
                res matches Err(e) && unsupported(e, not_a_function_text(debug_text(name@)))
            } else {
                linked_call_result(
                    res,
                    *metadata,
                    text_base,
                    preambles_base,
                    preambles_len,
                    preamble_offsets@,
                    metadata.exports@[k as int].index,
                    params@,
                )
            },
        },
{
    let index = match export_call_target(metadata, name) {
        Ok(i) => i,
        Err(e) => {
            return Err(e);
        },
    };
    proof {
        lemma_all_code_fits(*metadata, text_base, index);
    }
    prepare_linked_call(metadata, text_base, preambles_base, preambles_len, preamble_offsets, index, params)
}

/// The call that `start` makes: none when the module has a start section;
/// else the `_start` function export's function, prepared with no
/// parameters as `prepare_linked_call` does.
pub fn plan_start_call(
    metadata: &AotCompiledMetadata,
    text_base: usize,
    preambles_base: usize,
    preambles_len: usize,
    preamble_offsets: &[usize],
) -> (res: Result<Option<LinkedCall>, LinkedModuleError>)
    requires
        all_code_fits(*metadata, text_base),
        preambles_base + preambles_len <= usize::MAX,
    ensures
        metadata.start_function_index is Some ==> res matches Ok(None),
        metadata.start_function_index is None ==> match first_start_export(metadata.exports@, 0) {
            None => res matches Err(e) && invalid_metadata(e, "linked module metadata has no start function"@),
            Some(k) => match res {
                Ok(None) => false,
                Ok(Some(call)) => linked_call_result(
                    Ok(call),
                    *metadata,
                    text_base,
                    preambles_base,
                    preambles_len,
                    preamble_offsets@,
                    metadata.exports@[k as int].index,
                    seq![],
                ),
                Err(e) => linked_call_result(
                    Err(e),
                    *metadata,
                    text_base,
                    preambles_base,
                    preambles_len,
                    preamble_offsets@,
                    metadata.exports@[k as int].index,
                    seq![],
                ),
            },
        },
{
    let target = match start_target(metadata) {
        Ok(Some(t)) => t,
        Ok(None) => {
            return Ok(None);
        },
        Err(e) => {
            return Err(e);
        },
    };
    proof {
        lemma_all_code_fits(*metadata, text_base, target);
    }
    let no_params: Vec<u64> = Vec::new();
    assert(no_params@ =~= seq![]);
    match prepare_linked_call(metadata, text_base, preambles_base, preambles_len, preamble_offsets, target, no_params.as_slice()) {
        Ok(call) => Ok(Some(call)),
        Err(e) => Err(e),
    }
}

} // verus!
