//! The initial runtime state of a module linked into a native executable:
//! the checks that decide whether its metadata can be packaged, and the plan
//! of its memory bytes, globals, tables and type ids built from that metadata.

use vstd::prelude::*;
use crate::aot::{
    AotCompiledMetadata, AotFunctionMetadata, ElementMode, REF_TYPE_FUNCREF, VALUE_TYPE_I32,
    VALUE_TYPE_I64, VALUE_TYPE_F32, VALUE_TYPE_F64, VALUE_TYPE_V128, VALUE_TYPE_FUNCREF,
    VALUE_TYPE_EXTERNREF,
};
use crate::const_expr::{
    ConstExprError, LinkedGlobalValue, first_function_slot, find_function, spec_eval_const,
    evaluate_const_expr, const_expr_error_text, OPCODE_END, OPCODE_REF_FUNC, OPCODE_REF_NULL,
};
use crate::leb128::{spec_leb_u32, read_leb_u32};
use crate::text::{push_str, push_decimal, push_hex2, hex2, decimal};

verus! {

/// Bytes in a WebAssembly memory page.
pub const MEMORY_PAGE_SIZE: u32 = 65536;

/// A table of the linked runtime: for each slot, the wasm index of the
/// function it refers to, or `None` for a null reference.
#[derive(Clone, Debug, PartialEq, Eq)]
pub struct LinkedTablePlan {
    pub elements: Vec<Option<u32>>,
}

/// The initial state of a linked module.
#[derive(Clone, Debug, PartialEq, Eq)]
pub struct LinkedRuntimePlan {
    pub memory_bytes: Option<Vec<u8>>,
    pub globals: Vec<LinkedGlobalValue>,
    pub tables: Vec<LinkedTablePlan>,
    pub type_ids: Vec<u32>,
}

pub ghost struct LinkedRuntimePlanModel {
    pub memory_bytes: Option<Seq<u8>>,
    pub globals: Seq<LinkedGlobalValue>,
    pub tables: Seq<Seq<Option<u32>>>,
    pub type_ids: Seq<u32>,
}

pub open spec fn tables_view(ts: Seq<LinkedTablePlan>) -> Seq<Seq<Option<u32>>> {
    Seq::new(ts.len(), |i: int| ts[i].elements@)
}

pub open spec fn opt_bytes_view(o: Option<Vec<u8>>) -> Option<Seq<u8>> {
    match o {
        Some(b) => Some(b@),
        None => None,
    }
}

impl View for LinkedRuntimePlan {
    type V = LinkedRuntimePlanModel;

    open spec fn view(&self) -> LinkedRuntimePlanModel {
        LinkedRuntimePlanModel {
            memory_bytes: opt_bytes_view(self.memory_bytes),
            globals: self.globals@,
            tables: tables_view(self.tables@),
            type_ids: self.type_ids@,
        }
    }
}

/// Why a module's metadata cannot be packaged with a linked runtime.
#[derive(Clone, Copy, Debug, PartialEq, Eq, Structural)]
pub enum LinkedPlanError {
    HostModule,
    HasImports,
    TerminationHelpers,
    SharedMemory,
    NoFunctions,
    GlobalInitializerCount { globals: usize, initializers: usize },
    TableCount,
    GlobalCount,
    DataCount,
    ElementCount,
    MissingStartFunction(u32),
    MissingType(u32),
    StartSignature,
    ConstExpr(ConstExprError),
    GlobalTypeMismatch { index: usize, found: u8, declared: u8 },
    PassiveData(usize),
    DataOffsetOverflow(usize),
    DataOutOfRange { index: usize, offset: usize, end: usize, len: usize },
    DataWithoutMemory,
    TableNotFuncref { index: usize, ty: u8 },
    OffsetNotInteger,
    ElementNotActive { index: usize, mode: ElementMode },
    ElementNotFuncref { index: usize, ty: u8 },
    UnknownTable { index: usize, table: u32 },
    ElementOffsetOverflow(usize),
    ElementOutOfRange { index: usize, offset: usize, end: usize, len: usize },
    ElementInitEmpty { segment: usize, init: usize },
    InvalidRefNull { segment: usize, init: usize },
    RefFuncIndex { segment: usize, init: usize },
    TrailingBytes { segment: usize, init: usize },
    MissingFunction { segment: usize, init: usize, function: u32 },
    UnsupportedInitOpcode { segment: usize, init: usize, opcode: u8 },
}

// ---------------------------------------------------------------------------
// Validation
// ---------------------------------------------------------------------------

/// The start function, if any, must be a local function of type `() -> ()`.
pub open spec fn spec_start_check(m: AotCompiledMetadata) -> Option<LinkedPlanError> {
    match m.start_function_index {
        None => None,
        Some(start) => match first_function_slot(m.functions@, start, 0) {
            None => Some(LinkedPlanError::MissingStartFunction(start)),
            Some(slot) => {
                let ti = m.functions@[slot as int].type_index;
                if ti as nat >= m.types@.len() {
                    Some(LinkedPlanError::MissingType(ti))
                } else if m.types@[ti as int].params@.len() != 0 || m.types@[ti as int].results@.len()
                    != 0 {
                    Some(LinkedPlanError::StartSignature)
                } else {
                    None
                }
            },
        },
    }
}

/// The first reason, in order, why the metadata cannot be packaged, if any.
pub open spec fn spec_validate(m: AotCompiledMetadata) -> Option<LinkedPlanError> {
    let shape = m.module_shape;
    if shape.is_host_module {
        Some(LinkedPlanError::HostModule)
    } else if shape.import_function_count != 0 || shape.import_global_count != 0
        || shape.import_memory_count != 0 || shape.import_table_count != 0 {
        Some(LinkedPlanError::HasImports)
    } else if m.ensure_termination {
        Some(LinkedPlanError::TerminationHelpers)
    } else if m.memory matches Some(mem) && mem.is_shared {
        Some(LinkedPlanError::SharedMemory)
    } else if m.functions@.len() == 0 {
        Some(LinkedPlanError::NoFunctions)
    } else if m.globals@.len() != m.global_initializers@.len() {
        Some(
            LinkedPlanError::GlobalInitializerCount {
                globals: m.globals@.len() as usize,
                initializers: m.global_initializers@.len() as usize,
            },
        )
    } else if shape.local_table_count != m.tables@.len() as u32 {
        Some(LinkedPlanError::TableCount)
    } else if shape.local_global_count != m.globals@.len() as u32 {
        Some(LinkedPlanError::GlobalCount)
    } else if shape.data_segment_count != m.data_segments@.len() as u32 {
        Some(LinkedPlanError::DataCount)
    } else if shape.element_segment_count != m.element_segments@.len() as u32 {
        Some(LinkedPlanError::ElementCount)
    } else {
        spec_start_check(m)
    }
}

/// Checks that a module's metadata can be packaged with a linked runtime:
/// no host module, no imports, no termination helpers, no shared memory, at
/// least one local function, consistent counts, and a `() -> ()` local start
/// function if there is one.
pub fn validate_linked_runtime_metadata(metadata: &AotCompiledMetadata) -> (res: Result<
    (),
    LinkedPlanError,
>)
    ensures
        match spec_validate(*metadata) {
            None => res is Ok,
            Some(e) => res == Err::<(), LinkedPlanError>(e),
        },
{
    let shape = &metadata.module_shape;
    if shape.is_host_module {
        return Err(LinkedPlanError::HostModule);
    }
    if shape.import_function_count != 0 || shape.import_global_count != 0
        || shape.import_memory_count != 0 || shape.import_table_count != 0 {
        return Err(LinkedPlanError::HasImports);
    }
    if metadata.ensure_termination {
        return Err(LinkedPlanError::TerminationHelpers);
    }
    match &metadata.memory {
        Some(mem) => if mem.is_shared {
            return Err(LinkedPlanError::SharedMemory);
        },
        None => {},
    }
    if metadata.functions.len() == 0 {
        return Err(LinkedPlanError::NoFunctions);
    }
    if metadata.globals.len() != metadata.global_initializers.len() {
        return Err(
            LinkedPlanError::GlobalInitializerCount {
                globals: metadata.globals.len(),
                initializers: metadata.global_initializers.len(),
            },
        );
    }
    if shape.local_table_count != metadata.tables.len() as u32 {
        return Err(LinkedPlanError::TableCount);
    }
    if shape.local_global_count != metadata.globals.len() as u32 {
        return Err(LinkedPlanError::GlobalCount);
    }
    if shape.data_segment_count != metadata.data_segments.len() as u32 {
        return Err(LinkedPlanError::DataCount);
    }
    if shape.element_segment_count != metadata.element_segments.len() as u32 {
        return Err(LinkedPlanError::ElementCount);
    }
    match metadata.start_function_index {
        None => Ok(()),
        Some(start) => match find_function(metadata.functions.as_slice(), start) {
            None => Err(LinkedPlanError::MissingStartFunction(start)),
            Some(slot) => {
                let ti = metadata.functions[slot].type_index;
                if ti as usize >= metadata.types.len() {
                    Err(LinkedPlanError::MissingType(ti))
                } else if metadata.types[ti as usize].params.len() != 0
                    || metadata.types[ti as usize].results.len() != 0 {
                    Err(LinkedPlanError::StartSignature)
                } else {
                    Ok(())
                }
            },
        },
    }
}

// ---------------------------------------------------------------------------
// The plan
// ---------------------------------------------------------------------------

/// The offset a data or element segment starts at: its expression must give
/// an `i32` or `i64`.
pub open spec fn spec_offset(m: AotCompiledMetadata, gs: Seq<LinkedGlobalValue>, expr: Seq<u8>) -> Result<
    usize,
    LinkedPlanError,
> {
    match spec_eval_const(expr, m.globals@, gs, m.functions@) {
        Err(e) => Err(LinkedPlanError::ConstExpr(e)),
        Ok((vals, t)) => if t == VALUE_TYPE_I32 || t == VALUE_TYPE_I64 {
            Ok(
                if vals.len() > 0 {
                    vals[0] as usize
                } else {
                    0
                },
            )
        } else {
            Err(LinkedPlanError::OffsetNotInteger)
        },
    }
}

/// The value of global `i`, evaluated against the globals before it.
pub open spec fn spec_global_step(m: AotCompiledMetadata, gs: Seq<LinkedGlobalValue>, i: nat) -> Result<
    LinkedGlobalValue,
    LinkedPlanError,
> {
    match spec_eval_const(m.global_initializers@[i as int].init_expression@, m.globals@, gs, m.functions@) {
        Err(e) => Err(LinkedPlanError::ConstExpr(e)),
        Ok((vals, t)) => if t != m.globals@[i as int].val_type {
            Err(
                LinkedPlanError::GlobalTypeMismatch {
                    index: i as usize,
                    found: t,
                    declared: m.globals@[i as int].val_type,
                },
            )
        } else {
            Ok(
                LinkedGlobalValue {
                    value_lo: if vals.len() > 0 {
                        vals[0]
                    } else {
                        0
                    },
                    value_hi: if vals.len() > 1 {
                        vals[1]
                    } else {
                        0
                    },
                },
            )
        },
    }
}

/// The globals from `i` on, appended to `gs`.
pub open spec fn spec_globals_from(m: AotCompiledMetadata, gs: Seq<LinkedGlobalValue>, i: nat) -> Result<
    Seq<LinkedGlobalValue>,
    LinkedPlanError,
>
    decreases m.globals@.len() - i,
{
    if i >= m.globals@.len() {
        Ok(gs)
    } else {
        match spec_global_step(m, gs, i) {
            Err(e) => Err(e),
            Ok(g) => spec_globals_from(m, gs.push(g), i + 1),
        }
    }
}

/// `b` with `part` written at `off`.
pub open spec fn splice<T>(b: Seq<T>, off: int, part: Seq<T>) -> Seq<T> {
    b.take(off) + part + b.skip(off + part.len())
}

/// Memory `b` after data segment `i` is written.
pub open spec fn spec_data_step(m: AotCompiledMetadata, gs: Seq<LinkedGlobalValue>, b: Seq<u8>, i: nat) -> Result<
    Seq<u8>,
    LinkedPlanError,
> {
    let seg = m.data_segments@[i as int];
    if seg.passive {
        Err(LinkedPlanError::PassiveData(i as usize))
    } else {
        match spec_offset(m, gs, seg.offset_expression@) {
            Err(e) => Err(e),
            Ok(off) => if off + seg.init@.len() > usize::MAX {
                Err(LinkedPlanError::DataOffsetOverflow(i as usize))
            } else if off + seg.init@.len() > b.len() {
                Err(
                    LinkedPlanError::DataOutOfRange {
                        index: i as usize,
                        offset: off,
                        end: (off + seg.init@.len()) as usize,
                        len: b.len() as usize,
                    },
                )
            } else {
                Ok(splice(b, off as int, seg.init@))
            },
        }
    }
}

/// Memory `b` after the data segments from `i` on are written.
pub open spec fn spec_data_from(m: AotCompiledMetadata, gs: Seq<LinkedGlobalValue>, b: Seq<u8>, i: nat) -> Result<
    Seq<u8>,
    LinkedPlanError,
>
    decreases m.data_segments@.len() - i,
{
    if i >= m.data_segments@.len() {
        Ok(b)
    } else {
        match spec_data_step(m, gs, b, i) {
            Err(e) => Err(e),
            Ok(b2) => spec_data_from(m, gs, b2, i + 1),
        }
    }
}

/// The byte length of a memory of `min` pages, saturated at `u32::MAX`.
pub open spec fn memory_len(min: u32) -> nat {
    if min * 65536 > u32::MAX {
        u32::MAX as nat
    } else {
        (min * 65536) as nat
    }
}

/// The initial memory: zeros of the minimum size with the data segments
/// written in order; no memory, and no data segments, when none is defined.
pub open spec fn spec_memory(m: AotCompiledMetadata, gs: Seq<LinkedGlobalValue>) -> Result<
    Option<Seq<u8>>,
    LinkedPlanError,
> {
    match m.memory {
        Some(mem) => match spec_data_from(m, gs, Seq::new(memory_len(mem.min), |i: int| 0u8), 0) {
            Err(e) => Err(e),
            Ok(b) => Ok(Some(b)),
        },
        None => if m.data_segments@.len() > 0 {
            Err(LinkedPlanError::DataWithoutMemory)
        } else {
            Ok(None)
        },
    }
}

/// The tables from `i` on, appended to `ts`: each a funcref table of null
/// entries, as many as its minimum size.
pub open spec fn spec_tables_from(m: AotCompiledMetadata, ts: Seq<Seq<Option<u32>>>, i: nat) -> Result<
    Seq<Seq<Option<u32>>>,
    LinkedPlanError,
>
    decreases m.tables@.len() - i,
{
    if i >= m.tables@.len() {
        Ok(ts)
    } else if m.tables@[i as int].ty != REF_TYPE_FUNCREF {
        Err(LinkedPlanError::TableNotFuncref { index: i as usize, ty: m.tables@[i as int].ty })
    } else {
        spec_tables_from(
            m,
            ts.push(Seq::new(m.tables@[i as int].min as nat, |j: int| None::<u32>)),
            i + 1,
        )
    }
}

/// The table entry that an element initializer gives: `ref.null` followed
/// by `end`, or `ref.func` of a local function followed by `end`.
pub open spec fn spec_element_ref(
    segment: nat,
    init: nat,
    expr: Seq<u8>,
    functions: Seq<AotFunctionMetadata>,
) -> Result<Option<u32>, LinkedPlanError> {
    if expr.len() == 0 {
        Err(LinkedPlanError::ElementInitEmpty { segment: segment as usize, init: init as usize })
    } else if expr[0] == OPCODE_REF_NULL {
        if expr.last() == OPCODE_END {
            Ok(None)
        } else {
            Err(LinkedPlanError::InvalidRefNull { segment: segment as usize, init: init as usize })
        }
    } else if expr[0] == OPCODE_REF_FUNC {
        match spec_leb_u32(expr.drop_first()) {
            None => Err(LinkedPlanError::RefFuncIndex { segment: segment as usize, init: init as usize }),
            Some((index, n)) => if !(1 + n < expr.len() && expr[1 + n as int] == OPCODE_END) {
                Err(LinkedPlanError::TrailingBytes { segment: segment as usize, init: init as usize })
            } else if first_function_slot(functions, index, 0) is None {
                Err(
                    LinkedPlanError::MissingFunction {
                        segment: segment as usize,
                        init: init as usize,
                        function: index,
                    },
                )
            } else {
                Ok(Some(index))
            },
        }
    } else {
        Err(
            LinkedPlanError::UnsupportedInitOpcode {
                segment: segment as usize,
                init: init as usize,
                opcode: expr[0],
            },
        )
    }
}

/// The entries of element segment `segment` from initializer `j` on,
/// appended to `rs`.
pub open spec fn spec_refs_from(
    segment: nat,
    exprs: Seq<Vec<u8>>,
    functions: Seq<AotFunctionMetadata>,
    rs: Seq<Option<u32>>,
    j: nat,
) -> Result<Seq<Option<u32>>, LinkedPlanError>
    decreases exprs.len() - j,
{
    if j >= exprs.len() {
        Ok(rs)
    } else {
        match spec_element_ref(segment, j, exprs[j as int]@, functions) {
            Err(e) => Err(e),
            Ok(r) => spec_refs_from(segment, exprs, functions, rs.push(r), j + 1),
        }
    }
}

/// The tables after element segment `i` is written.
pub open spec fn spec_element_step(
    m: AotCompiledMetadata,
    gs: Seq<LinkedGlobalValue>,
    ts: Seq<Seq<Option<u32>>>,
    i: nat,
) -> Result<Seq<Seq<Option<u32>>>, LinkedPlanError> {
    let seg = m.element_segments@[i as int];
    let n = seg.init_expressions@.len();
    if seg.mode != ElementMode::Active {
        Err(LinkedPlanError::ElementNotActive { index: i as usize, mode: seg.mode })
    } else if seg.ty != REF_TYPE_FUNCREF {
        Err(LinkedPlanError::ElementNotFuncref { index: i as usize, ty: seg.ty })
    } else {
        match spec_offset(m, gs, seg.offset_expression@) {
            Err(e) => Err(e),
            Ok(off) => {
                let ti = seg.table_index as int;
                if ti >= ts.len() {
                    Err(LinkedPlanError::UnknownTable { index: i as usize, table: seg.table_index })
                } else if off + n > usize::MAX {
                    Err(LinkedPlanError::ElementOffsetOverflow(i as usize))
                } else if off + n > ts[ti].len() {
                    Err(
                        LinkedPlanError::ElementOutOfRange {
                            index: i as usize,
                            offset: off,
                            end: (off + n) as usize,
                            len: ts[ti].len() as usize,
                        },
                    )
                } else {
                    match spec_refs_from(i, seg.init_expressions@, m.functions@, seq![], 0) {
                        Err(e) => Err(e),
                        Ok(rs) => Ok(ts.update(ti, splice(ts[ti], off as int, rs))),
                    }
                }
            },
        }
    }
}

/// The tables after the element segments from `i` on are written.
pub open spec fn spec_elements_from(
    m: AotCompiledMetadata,
    gs: Seq<LinkedGlobalValue>,
    ts: Seq<Seq<Option<u32>>>,
    i: nat,
) -> Result<Seq<Seq<Option<u32>>>, LinkedPlanError>
    decreases m.element_segments@.len() - i,
{
    if i >= m.element_segments@.len() {
        Ok(ts)
    } else {
        match spec_element_step(m, gs, ts, i) {
            Err(e) => Err(e),
            Ok(ts2) => spec_elements_from(m, gs, ts2, i + 1),
        }
    }
}

/// The plan of a module's initial runtime state, or the first reason it
/// cannot be built: validation, then the globals in order, then the memory
/// and its data segments, then the tables, then the element segments.
pub open spec fn spec_linked_runtime_plan(m: AotCompiledMetadata) -> Result<
    LinkedRuntimePlanModel,
    LinkedPlanError,
> {
    match spec_validate(m) {
        Some(e) => Err(e),
        None => match spec_globals_from(m, seq![], 0) {
            Err(e) => Err(e),
            Ok(gs) => match spec_memory(m, gs) {
                Err(e) => Err(e),
                Ok(mem) => match spec_tables_from(m, seq![], 0) {
                    Err(e) => Err(e),
                    Ok(ts0) => match spec_elements_from(m, gs, ts0, 0) {
                        Err(e) => Err(e),
                        Ok(ts) => Ok(
                            LinkedRuntimePlanModel {
                                memory_bytes: mem,
                                globals: gs,
                                tables: ts,
                                type_ids: Seq::new(m.types@.len(), |i: int| i as u32),
                            },
                        ),
                    },
                },
            },
        },
    }
}

pub open spec fn plan_result_matches(
    res: Result<LinkedRuntimePlan, LinkedPlanError>,
    spec: Result<LinkedRuntimePlanModel, LinkedPlanError>,
) -> bool {
    match spec {
        Ok(p) => res matches Ok(r) && r@ == p,
        Err(e) => res matches Err(e2) && e2 == e,
    }
}

fn evaluate_offset(metadata: &AotCompiledMetadata, globals: &[LinkedGlobalValue], expr: &[u8]) -> (res:
    Result<usize, LinkedPlanError>)
    ensures
        res == spec_offset(*metadata, globals@, expr@),
{
    match evaluate_const_expr(expr, metadata.globals.as_slice(), globals, metadata.functions.as_slice()) {
        Err(e) => Err(LinkedPlanError::ConstExpr(e)),
        Ok((values, t)) => if t == VALUE_TYPE_I32 || t == VALUE_TYPE_I64 {
            if values.len() > 0 {
                Ok(values[0] as usize)
            } else {
                Ok(0)
            }
        } else {
            Err(LinkedPlanError::OffsetNotInteger)
        },
    }
}

fn build_globals(metadata: &AotCompiledMetadata) -> (res: Result<Vec<LinkedGlobalValue>, LinkedPlanError>)
    requires
        metadata.globals@.len() == metadata.global_initializers@.len(),
    ensures
        match spec_globals_from(*metadata, seq![], 0) {
            Ok(gs) => res matches Ok(v) && v@ == gs,
            Err(e) => res == Err::<Vec<LinkedGlobalValue>, LinkedPlanError>(e),
        },
{
    let n = metadata.globals.len();
    let mut globals: Vec<LinkedGlobalValue> = Vec::new();
    let mut i: usize = 0;
    while i < n
        invariant
            n == metadata.globals@.len(),
            n == metadata.global_initializers@.len(),
            i <= n,
            spec_globals_from(*metadata, seq![], 0) == spec_globals_from(*metadata, globals@, i as nat),
        decreases n - i,
    {
        let ghost before = globals@;
        let declared = metadata.globals[i].val_type;
        match evaluate_const_expr(
            metadata.global_initializers[i].init_expression.as_slice(),
            metadata.globals.as_slice(),
            globals.as_slice(),
            metadata.functions.as_slice(),
        ) {
            Err(e) => {
                return Err(LinkedPlanError::ConstExpr(e));
            },
            Ok((values, t)) => {
                if t != declared {
                    return Err(LinkedPlanError::GlobalTypeMismatch { index: i, found: t, declared });
                }
                let value_lo = if values.len() > 0 {
                    values[0]
                } else {
                    0
                };
                let value_hi = if values.len() > 1 {
                    values[1]
                } else {
                    0
                };
                globals.push(LinkedGlobalValue { value_lo, value_hi });
                assert(spec_global_step(*metadata, before, i as nat) == Ok::<
                    LinkedGlobalValue,
                    LinkedPlanError,
                >(LinkedGlobalValue { value_lo, value_hi }));
            },
        }
        i = i + 1;
    }
    Ok(globals)
}

fn data_step(
    metadata: &AotCompiledMetadata,
    globals: &[LinkedGlobalValue],
    bytes: &mut Vec<u8>,
    i: usize,
) -> (res: Result<(), LinkedPlanError>)
    requires
        i < metadata.data_segments@.len(),
    ensures
        match spec_data_step(*metadata, globals@, old(bytes)@, i as nat) {
            Ok(b) => res is Ok && final(bytes)@ == b,
            Err(e) => res == Err::<(), LinkedPlanError>(e),
        },
{
    let segment = &metadata.data_segments[i];
    if segment.passive {
        return Err(LinkedPlanError::PassiveData(i));
    }
    let offset = match evaluate_offset(metadata, globals, segment.offset_expression.as_slice()) {
        Ok(offset) => offset,
        Err(e) => {
            return Err(e);
        },
    };
    let len = segment.init.len();
    if offset > usize::MAX - len {
        return Err(LinkedPlanError::DataOffsetOverflow(i));
    }
    let end = offset + len;
    if end > bytes.len() {
        return Err(LinkedPlanError::DataOutOfRange { index: i, offset, end, len: bytes.len() });
    }
    let ghost before = bytes@;
    let mut k: usize = 0;
    while k < len
        invariant
            len == segment.init@.len(),
            offset + len <= before.len(),
            end == offset + len,
            bytes@.len() == before.len(),
            k <= len,
            bytes@ == before.take(offset as int) + segment.init@.take(k as int) + before.skip(
                offset + k,
            ),
        decreases len - k,
    {
        bytes.set(offset + k, segment.init[k]);
        assert(bytes@ =~= before.take(offset as int) + segment.init@.take(k + 1) + before.skip(
            offset + k + 1,
        ));
        k = k + 1;
    }
    assert(segment.init@.take(len as int) =~= segment.init@);
    Ok(())
}

fn build_memory(metadata: &AotCompiledMetadata, globals: &[LinkedGlobalValue]) -> (res: Result<
    Option<Vec<u8>>,
    LinkedPlanError,
>)
    ensures
        match spec_memory(*metadata, globals@) {
            Ok(mem) => res matches Ok(r) && match r {
                Some(b) => mem == Some(b@),
                None => mem is None,
            },
            Err(e) => res == Err::<Option<Vec<u8>>, LinkedPlanError>(e),
        },
{
    match &metadata.memory {
        None => if metadata.data_segments.len() > 0 {
            Err(LinkedPlanError::DataWithoutMemory)
        } else {
            Ok(None)
        },
        Some(mem) => {
            let len: u32 = if mem.min > u32::MAX / MEMORY_PAGE_SIZE {
                u32::MAX
            } else {
                mem.min * MEMORY_PAGE_SIZE
            };
            let mut bytes: Vec<u8> = Vec::new();
            let mut k: u32 = 0;
            while k < len
                invariant
                    k <= len,
                    bytes@ == Seq::new(k as nat, |j: int| 0u8),
                decreases len - k,
            {
                bytes.push(0u8);
                assert(bytes@ =~= Seq::new((k + 1) as nat, |j: int| 0u8));
                k = k + 1;
            }
            assert(len as nat == memory_len(mem.min));
            let n = metadata.data_segments.len();
            let mut i: usize = 0;
            while i < n
                invariant
                    n == metadata.data_segments@.len(),
                    metadata.memory == Some(*mem),
                    i <= n,
                    spec_data_from(*metadata, globals@, Seq::new(memory_len(mem.min), |j: int| 0u8), 0)
                        == spec_data_from(*metadata, globals@, bytes@, i as nat),
                decreases n - i,
            {
                match data_step(metadata, globals, &mut bytes, i) {
                    Ok(()) => {},
                    Err(e) => {
                        return Err(e);
                    },
                }
                i = i + 1;
            }
            Ok(Some(bytes))
        },
    }
}

fn build_tables(metadata: &AotCompiledMetadata) -> (res: Result<Vec<LinkedTablePlan>, LinkedPlanError>)
    ensures
        match spec_tables_from(*metadata, seq![], 0) {
            Ok(ts) => res matches Ok(v) && tables_view(v@) == ts,
            Err(e) => res == Err::<Vec<LinkedTablePlan>, LinkedPlanError>(e),
        },
{
    let n = metadata.tables.len();
    let mut tables: Vec<LinkedTablePlan> = Vec::new();
    let mut i: usize = 0;
    assert(tables_view(tables@) =~= seq![]);
    while i < n
        invariant
            n == metadata.tables@.len(),
            i <= n,
            spec_tables_from(*metadata, seq![], 0) == spec_tables_from(
                *metadata,
                tables_view(tables@),
                i as nat,
            ),
        decreases n - i,
    {
        let table = &metadata.tables[i];
        if table.ty != REF_TYPE_FUNCREF {
            return Err(LinkedPlanError::TableNotFuncref { index: i, ty: table.ty });
        }
        let mut elements: Vec<Option<u32>> = Vec::new();
        let mut k: u32 = 0;
        while k < table.min
            invariant
                k <= table.min,
                elements@ == Seq::new(k as nat, |j: int| None::<u32>),
            decreases table.min - k,
        {
            elements.push(None);
            assert(elements@ =~= Seq::new((k + 1) as nat, |j: int| None::<u32>));
            k = k + 1;
        }
        let ghost before = tables_view(tables@);
        tables.push(LinkedTablePlan { elements });
        assert(tables_view(tables@) =~= before.push(Seq::new(table.min as nat, |j: int| None::<u32>)));
        i = i + 1;
    }
    Ok(tables)
}

/// The table entry that element initializer `init_index` of segment
/// `segment_index` gives: `None` for `ref.null`, the function index for a
/// `ref.func` of a local function.
pub fn evaluate_element_reference(
    segment_index: usize,
    init_index: usize,
    expr: &[u8],
    functions: &[AotFunctionMetadata],
) -> (res: Result<Option<u32>, LinkedPlanError>)
    ensures
        res == spec_element_ref(segment_index as nat, init_index as nat, expr@, functions@),
{
    if expr.len() == 0 {
        return Err(LinkedPlanError::ElementInitEmpty { segment: segment_index, init: init_index });
    }
    let opcode = expr[0];
    if opcode == OPCODE_REF_NULL {
        if expr[expr.len() - 1] == OPCODE_END {
            Ok(None)
        } else {
            Err(LinkedPlanError::InvalidRefNull { segment: segment_index, init: init_index })
        }
    } else if opcode == OPCODE_REF_FUNC {
        assert(expr@.drop_first() =~= expr@.subrange(1, expr@.len() as int));
        match read_leb_u32(expr, 1) {
            None => Err(LinkedPlanError::RefFuncIndex { segment: segment_index, init: init_index }),
            Some((index, used)) => {
                if !(used < expr.len() - 1 && expr[1 + used] == OPCODE_END) {
                    Err(LinkedPlanError::TrailingBytes { segment: segment_index, init: init_index })
                } else if find_function(functions, index).is_none() {
                    Err(
                        LinkedPlanError::MissingFunction {
                            segment: segment_index,
                            init: init_index,
                            function: index,
                        },
                    )
                } else {
                    Ok(Some(index))
                }
            },
        }
    } else {
        Err(
            LinkedPlanError::UnsupportedInitOpcode {
                segment: segment_index,
                init: init_index,
                opcode,
            },
        )
    }
}

fn element_refs(metadata: &AotCompiledMetadata, i: usize) -> (res: Result<Vec<Option<u32>>, LinkedPlanError>)
    requires
        i < metadata.element_segments@.len(),
    ensures
        match spec_refs_from(
            i as nat,
            metadata.element_segments@[i as int].init_expressions@,
            metadata.functions@,
            seq![],
            0,
        ) {
            Ok(rs) => res matches Ok(v) && v@ == rs && rs.len()
                == metadata.element_segments@[i as int].init_expressions@.len(),
            Err(e) => res == Err::<Vec<Option<u32>>, LinkedPlanError>(e),
        },
{
    let exprs = &metadata.element_segments[i].init_expressions;
    let n = exprs.len();
    let mut refs: Vec<Option<u32>> = Vec::new();
    let mut j: usize = 0;
    while j < n
        invariant
            n == exprs@.len(),
            exprs == metadata.element_segments@[i as int].init_expressions,
            j <= n,
            refs@.len() == j,
            spec_refs_from(i as nat, exprs@, metadata.functions@, seq![], 0) == spec_refs_from(
                i as nat,
                exprs@,
                metadata.functions@,
                refs@,
                j as nat,
            ),
        decreases n - j,
    {
        match evaluate_element_reference(i, j, exprs[j].as_slice(), metadata.functions.as_slice()) {
            Err(e) => {
                return Err(e);
            },
            Ok(r) => {
                refs.push(r);
            },
        }
        j = j + 1;
    }
    Ok(refs)
}

fn element_step(
    metadata: &AotCompiledMetadata,
    globals: &[LinkedGlobalValue],
    tables: &mut Vec<LinkedTablePlan>,
    i: usize,
) -> (res: Result<(), LinkedPlanError>)
    requires
        i < metadata.element_segments@.len(),
    ensures
        match spec_element_step(*metadata, globals@, tables_view(old(tables)@), i as nat) {
            Ok(ts) => res is Ok && tables_view(final(tables)@) == ts,
            Err(e) => res == Err::<(), LinkedPlanError>(e),
        },
{
    let segment = &metadata.element_segments[i];
    if segment.mode != ElementMode::Active {
        return Err(LinkedPlanError::ElementNotActive { index: i, mode: segment.mode });
    }
    if segment.ty != REF_TYPE_FUNCREF {
        return Err(LinkedPlanError::ElementNotFuncref { index: i, ty: segment.ty });
    }
    let offset = match evaluate_offset(metadata, globals, segment.offset_expression.as_slice()) {
        Ok(offset) => offset,
        Err(e) => {
            return Err(e);
        },
    };
    let ti = segment.table_index as usize;
    if ti >= tables.len() {
        return Err(LinkedPlanError::UnknownTable { index: i, table: segment.table_index });
    }
    let count = segment.init_expressions.len();
    if offset > usize::MAX - count {
        return Err(LinkedPlanError::ElementOffsetOverflow(i));
    }
    let end = offset + count;
    let table_len = tables[ti].elements.len();
    if end > table_len {
        return Err(LinkedPlanError::ElementOutOfRange { index: i, offset, end, len: table_len });
    }
    let refs = match element_refs(metadata, i) {
        Ok(refs) => refs,
        Err(e) => {
            return Err(e);
        },
    };
    let ghost old_elems = tables@[ti as int].elements@;
    let ghost target = splice(old_elems, offset as int, refs@);
    let mut elements: Vec<Option<u32>> = Vec::new();
    let mut p: usize = 0;
    while p < table_len
        invariant
            table_len == old_elems.len(),
            old_elems == tables@[ti as int].elements@,
            ti < tables@.len(),
            refs@.len() == count,
            end == offset + count,
            offset + count <= table_len,
            target == splice(old_elems, offset as int, refs@),
            p <= table_len,
            elements@ == target.take(p as int),
        decreases table_len - p,
    {
        let e = if p < offset || p >= end {
            tables[ti].elements[p]
        } else {
            refs[p - offset]
        };
        elements.push(e);
        assert(elements@ =~= target.take(p + 1));
        p = p + 1;
    }
    assert(target.len() == table_len);
    assert(elements@ =~= target);
    let ghost before = tables_view(tables@);
    tables.set(ti, LinkedTablePlan { elements });
    assert(tables_view(tables@) =~= before.update(ti as int, target));
    Ok(())
}

/// Builds the initial runtime state of a module from its metadata, or gives
/// the first reason it cannot be packaged with a linked runtime.
pub fn build_linked_runtime_plan(metadata: &AotCompiledMetadata) -> (res: Result<
    LinkedRuntimePlan,
    LinkedPlanError,
>)
    ensures
        plan_result_matches(res, spec_linked_runtime_plan(*metadata)),
{
    match validate_linked_runtime_metadata(metadata) {
        Ok(()) => {},
        Err(e) => {
            return Err(e);
        },
    }
    let globals = match build_globals(metadata) {
        Ok(g) => g,
        Err(e) => {
            return Err(e);
        },
    };
    let memory_bytes = match build_memory(metadata, globals.as_slice()) {
        Ok(m) => m,
        Err(e) => {
            return Err(e);
        },
    };
    let mut tables = match build_tables(metadata) {
        Ok(t) => t,
        Err(e) => {
            return Err(e);
        },
    };
    let n = metadata.element_segments.len();
    let mut i: usize = 0;
    let ghost ts0 = tables_view(tables@);
    while i < n
        invariant
            n == metadata.element_segments@.len(),
            spec_validate(*metadata) is None,
            spec_globals_from(*metadata, seq![], 0) == Ok::<Seq<LinkedGlobalValue>, LinkedPlanError>(
                globals@,
            ),
            spec_memory(*metadata, globals@) == Ok::<Option<Seq<u8>>, LinkedPlanError>(
                opt_bytes_view(memory_bytes),
            ),
            spec_tables_from(*metadata, seq![], 0) == Ok::<Seq<Seq<Option<u32>>>, LinkedPlanError>(
                ts0,
            ),
            i <= n,
            spec_elements_from(*metadata, globals@, ts0, 0) == spec_elements_from(
                *metadata,
                globals@,
                tables_view(tables@),
                i as nat,
            ),
        decreases n - i,
    {
        match element_step(metadata, globals.as_slice(), &mut tables, i) {
            Ok(()) => {},
            Err(e) => {
                return Err(e);
            },
        }
        i = i + 1;
    }
    let t = metadata.types.len();
    let mut type_ids: Vec<u32> = Vec::new();
    let mut k: usize = 0;
    while k < t
        invariant
            t == metadata.types@.len(),
            k <= t,
            type_ids@ == Seq::new(k as nat, |j: int| j as u32),
        decreases t - k,
    {
        type_ids.push(k as u32);
        assert(type_ids@ =~= Seq::new((k + 1) as nat, |j: int| j as u32));
        k = k + 1;
    }
    Ok(LinkedRuntimePlan { memory_bytes, globals, tables, type_ids })
}

// ---------------------------------------------------------------------------
// Messages
// ---------------------------------------------------------------------------

/// The name of a value type.
pub open spec fn value_type_name(t: u8) -> Seq<char> {
    if t == VALUE_TYPE_I32 {
        "i32"@
    } else if t == VALUE_TYPE_I64 {
        "i64"@
    } else if t == VALUE_TYPE_F32 {
        "f32"@
    } else if t == VALUE_TYPE_F64 {
        "f64"@
    } else if t == VALUE_TYPE_V128 {
        "v128"@
    } else if t == VALUE_TYPE_FUNCREF {
        "funcref"@
    } else if t == VALUE_TYPE_EXTERNREF {
        "externref"@
    } else {
        "unknown"@
    }
}

/// The name of a value type.
pub fn value_type_name_str(t: u8) -> (r: &'static str)
    ensures
        r@ == value_type_name(t),
{
    if t == VALUE_TYPE_I32 {
        "i32"
    } else if t == VALUE_TYPE_I64 {
        "i64"
    } else if t == VALUE_TYPE_F32 {
        "f32"
    } else if t == VALUE_TYPE_F64 {
        "f64"
    } else if t == VALUE_TYPE_V128 {
        "v128"
    } else if t == VALUE_TYPE_FUNCREF {
        "funcref"
    } else if t == VALUE_TYPE_EXTERNREF {
        "externref"
    } else {
        "unknown"
    }
}

/// The name of an element mode.
pub open spec fn element_mode_name(mode: ElementMode) -> Seq<char> {
    match mode {
        ElementMode::Active => "Active"@,
        ElementMode::Passive => "Passive"@,
        ElementMode::Declarative => "Declarative"@,
    }
}

fn element_mode_name_str(mode: ElementMode) -> (r: &'static str)
    ensures
        r@ == element_mode_name(mode),
{
    match mode {
        ElementMode::Active => "Active",
        ElementMode::Passive => "Passive",
        ElementMode::Declarative => "Declarative",
    }
}

pub open spec fn dec(n: usize) -> Seq<char> {
    decimal(n as nat)
}

pub open spec fn element_init_prefix(segment: usize, init: usize) -> Seq<char> {
    "element["@ + dec(segment) + "].init["@ + dec(init) + "]"@
}

/// The text of a packaging error.
pub open spec fn linked_plan_error_text(e: LinkedPlanError) -> Seq<char> {
    match e {
        LinkedPlanError::HostModule => "host modules are not supported by linked runtime packaging"@,
        LinkedPlanError::HasImports => "linked runtime packaging currently requires modules without imports"@,
        LinkedPlanError::TerminationHelpers => "linked runtime packaging does not support runtime-injected termination helpers"@,
        LinkedPlanError::SharedMemory => "linked runtime packaging does not support shared memories or atomics integration"@,
        LinkedPlanError::NoFunctions => "linked module metadata does not contain any compiled local functions"@,
        LinkedPlanError::GlobalInitializerCount { globals, initializers } => "linked runtime metadata has "@
            + dec(globals) + " globals but "@ + dec(initializers) + " global initializers"@,
        LinkedPlanError::TableCount => "linked runtime metadata has inconsistent table counts"@,
        LinkedPlanError::GlobalCount => "linked runtime metadata has inconsistent global counts"@,
        LinkedPlanError::DataCount => "linked runtime metadata has inconsistent data segment counts"@,
        LinkedPlanError::ElementCount => "linked runtime metadata has inconsistent element segment counts"@,
        LinkedPlanError::MissingStartFunction(start) => "linked module metadata has no local start function "@
            + decimal(start as nat),
        LinkedPlanError::MissingType(t) => "linked module metadata is missing type "@ + decimal(t as nat),
        LinkedPlanError::StartSignature => "start functions must use the () -> () signature"@,
        LinkedPlanError::ConstExpr(c) => const_expr_error_text(c),
        LinkedPlanError::GlobalTypeMismatch { index, found, declared } => "global["@ + dec(index)
            + "] initializer type "@ + value_type_name(found) + " does not match declared type "@
            + value_type_name(declared),
        LinkedPlanError::PassiveData(index) => "data["@ + dec(index)
            + "] is passive; linked runtime packaging only supports active data segments"@,
        LinkedPlanError::DataOffsetOverflow(index) => "data["@ + dec(index) + "] offset overflows memory"@,
        LinkedPlanError::DataOutOfRange { index, offset, end, len } => "data["@ + dec(index)
            + "] range "@ + dec(offset) + ".."@ + dec(end) + " exceeds memory length "@ + dec(len),
        LinkedPlanError::DataWithoutMemory => "active data segments require a defined local memory in linked runtime packaging"@,
        LinkedPlanError::TableNotFuncref { index, ty } => "table["@ + dec(index) + "] uses "@
            + value_type_name(ty) + ", only funcref tables are supported by linked runtime packaging"@,
        LinkedPlanError::OffsetNotInteger => "offset expression must evaluate to i32/i64"@,
        LinkedPlanError::ElementNotActive { index, mode } => "element["@ + dec(index) + "] uses "@
            + element_mode_name(mode)
            + "; linked runtime packaging only supports active element segments"@,
        LinkedPlanError::ElementNotFuncref { index, ty } => "element["@ + dec(index) + "] uses "@
            + value_type_name(ty)
            + "; linked runtime packaging only supports funcref element segments"@,
        LinkedPlanError::UnknownTable { index, table } => "element["@ + dec(index)
            + "] references unknown table "@ + decimal(table as nat),
        LinkedPlanError::ElementOffsetOverflow(index) => "element["@ + dec(index)
            + "] offset overflows table"@,
        LinkedPlanError::ElementOutOfRange { index, offset, end, len } => "element["@ + dec(index)
            + "] range "@ + dec(offset) + ".."@ + dec(end) + " exceeds table length "@ + dec(len),
        LinkedPlanError::ElementInitEmpty { segment, init } => element_init_prefix(segment, init)
            + " is empty"@,
        LinkedPlanError::InvalidRefNull { segment, init } => element_init_prefix(segment, init)
            + " has an invalid ref.null encoding"@,
        LinkedPlanError::RefFuncIndex { segment, init } => element_init_prefix(segment, init)
            + " ref.func index: malformed unsigned LEB128"@,
        LinkedPlanError::TrailingBytes { segment, init } => element_init_prefix(segment, init)
            + " has trailing bytes"@,
        LinkedPlanError::MissingFunction { segment, init, function } => element_init_prefix(
            segment,
            init,
        ) + " references missing local function "@ + decimal(function as nat),
        LinkedPlanError::UnsupportedInitOpcode { segment, init, opcode } => element_init_prefix(
            segment,
            init,
        ) + " uses an unsupported initializer opcode 0x"@ + hex2(opcode),
    }
}

fn push_usize(s: &mut String, n: usize)
    ensures
        final(s)@ == old(s)@ + dec(n),
{
    push_decimal(s, n as u64);
}

fn push_element_init_prefix(s: &mut String, segment: usize, init: usize)
    ensures
        final(s)@ == old(s)@ + element_init_prefix(segment, init),
{
    push_str(s, "element[");
    push_usize(s, segment);
    push_str(s, "].init[");
    push_usize(s, init);
    push_str(s, "]");
    assert(s@ =~= old(s)@ + element_init_prefix(segment, init));
}

impl LinkedPlanError {
    /// The error's text.
    pub fn message(&self) -> (r: String)
        ensures
            r@ == linked_plan_error_text(*self),
    {
        let mut s = String::new();
        match *self {
            LinkedPlanError::HostModule => push_str(&mut s, "host modules are not supported by linked runtime packaging"),
            LinkedPlanError::HasImports => push_str(&mut s, "linked runtime packaging currently requires modules without imports"),
            LinkedPlanError::TerminationHelpers => push_str(&mut s, "linked runtime packaging does not support runtime-injected termination helpers"),
            LinkedPlanError::SharedMemory => push_str(&mut s, "linked runtime packaging does not support shared memories or atomics integration"),
            LinkedPlanError::NoFunctions => push_str(&mut s, "linked module metadata does not contain any compiled local functions"),
            LinkedPlanError::GlobalInitializerCount { globals, initializers } => {
                push_str(&mut s, "linked runtime metadata has ");
                push_usize(&mut s, globals);
                push_str(&mut s, " globals but ");
                push_usize(&mut s, initializers);
                push_str(&mut s, " global initializers");
            },
            LinkedPlanError::TableCount => push_str(&mut s, "linked runtime metadata has inconsistent table counts"),
            LinkedPlanError::GlobalCount => push_str(&mut s, "linked runtime metadata has inconsistent global counts"),
            LinkedPlanError::DataCount => push_str(&mut s, "linked runtime metadata has inconsistent data segment counts"),
            LinkedPlanError::ElementCount => push_str(&mut s, "linked runtime metadata has inconsistent element segment counts"),
            LinkedPlanError::MissingStartFunction(start) => {
                push_str(&mut s, "linked module metadata has no local start function ");
                push_decimal(&mut s, start as u64);
            },
            LinkedPlanError::MissingType(t) => {
                push_str(&mut s, "linked module metadata is missing type ");
                push_decimal(&mut s, t as u64);
            },
            LinkedPlanError::StartSignature => push_str(&mut s, "start functions must use the () -> () signature"),
            LinkedPlanError::ConstExpr(c) => c.write_message(&mut s),
            LinkedPlanError::GlobalTypeMismatch { index, found, declared } => {
                push_str(&mut s, "global[");
                push_usize(&mut s, index);
                push_str(&mut s, "] initializer type ");
                push_str(&mut s, value_type_name_str(found));
                push_str(&mut s, " does not match declared type ");
                push_str(&mut s, value_type_name_str(declared));
            },
            LinkedPlanError::PassiveData(index) => {
                push_str(&mut s, "data[");
                push_usize(&mut s, index);
                push_str(&mut s, "] is passive; linked runtime packaging only supports active data segments");
            },
            LinkedPlanError::DataOffsetOverflow(index) => {
                push_str(&mut s, "data[");
                push_usize(&mut s, index);
                push_str(&mut s, "] offset overflows memory");
            },
            LinkedPlanError::DataOutOfRange { index, offset, end, len } => {
                push_str(&mut s, "data[");
                push_usize(&mut s, index);
                push_str(&mut s, "] range ");
                push_usize(&mut s, offset);
                push_str(&mut s, "..");
                push_usize(&mut s, end);
                push_str(&mut s, " exceeds memory length ");
                push_usize(&mut s, len);
            },
            LinkedPlanError::DataWithoutMemory => push_str(&mut s, "active data segments require a defined local memory in linked runtime packaging"),
            LinkedPlanError::TableNotFuncref { index, ty } => {
                push_str(&mut s, "table[");
                push_usize(&mut s, index);
                push_str(&mut s, "] uses ");
                push_str(&mut s, value_type_name_str(ty));
                push_str(&mut s, ", only funcref tables are supported by linked runtime packaging");
            },
            LinkedPlanError::OffsetNotInteger => push_str(&mut s, "offset expression must evaluate to i32/i64"),
            LinkedPlanError::ElementNotActive { index, mode } => {
                push_str(&mut s, "element[");
                push_usize(&mut s, index);
                push_str(&mut s, "] uses ");
                push_str(&mut s, element_mode_name_str(mode));
                push_str(&mut s, "; linked runtime packaging only supports active element segments");
            },
            LinkedPlanError::ElementNotFuncref { index, ty } => {
                push_str(&mut s, "element[");
                push_usize(&mut s, index);
                push_str(&mut s, "] uses ");
                push_str(&mut s, value_type_name_str(ty));
                push_str(&mut s, "; linked runtime packaging only supports funcref element segments");
            },
            LinkedPlanError::UnknownTable { index, table } => {
                push_str(&mut s, "element[");
                push_usize(&mut s, index);
                push_str(&mut s, "] references unknown table ");
                push_decimal(&mut s, table as u64);
            },
            LinkedPlanError::ElementOffsetOverflow(index) => {
                push_str(&mut s, "element[");
                push_usize(&mut s, index);
                push_str(&mut s, "] offset overflows table");
            },
            LinkedPlanError::ElementOutOfRange { index, offset, end, len } => {
                push_str(&mut s, "element[");
                push_usize(&mut s, index);
                push_str(&mut s, "] range ");
                push_usize(&mut s, offset);
                push_str(&mut s, "..");
                push_usize(&mut s, end);
                push_str(&mut s, " exceeds table length ");
                push_usize(&mut s, len);
            },
            LinkedPlanError::ElementInitEmpty { segment, init } => {
                push_element_init_prefix(&mut s, segment, init);
                push_str(&mut s, " is empty");
            },
            LinkedPlanError::InvalidRefNull { segment, init } => {
                push_element_init_prefix(&mut s, segment, init);
                push_str(&mut s, " has an invalid ref.null encoding");
            },
            LinkedPlanError::RefFuncIndex { segment, init } => {
                push_element_init_prefix(&mut s, segment, init);
                push_str(&mut s, " ref.func index: malformed unsigned LEB128");
            },
            LinkedPlanError::TrailingBytes { segment, init } => {
                push_element_init_prefix(&mut s, segment, init);
                push_str(&mut s, " has trailing bytes");
            },
            LinkedPlanError::MissingFunction { segment, init, function } => {
                push_element_init_prefix(&mut s, segment, init);
                push_str(&mut s, " references missing local function ");
                push_decimal(&mut s, function as u64);
            },
            LinkedPlanError::UnsupportedInitOpcode { segment, init, opcode } => {
                push_element_init_prefix(&mut s, segment, init);
                push_str(&mut s, " uses an unsupported initializer opcode 0x");
                push_hex2(&mut s, opcode);
            },
        }
        assert(s@ =~= linked_plan_error_text(*self));
        s
    }
}

} // verus!
