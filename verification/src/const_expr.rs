//! Constant expressions: the single-instruction initializers of globals,
//! data-segment offsets and element-segment offsets, evaluated against the
//! globals known so far and the module's local functions.

use vstd::prelude::*;
use crate::aot::{
    AotFunctionMetadata, AotGlobalTypeMetadata, VALUE_TYPE_I32, VALUE_TYPE_I64, VALUE_TYPE_F32,
    VALUE_TYPE_F64, VALUE_TYPE_V128, VALUE_TYPE_FUNCREF, REF_TYPE_FUNCREF, REF_TYPE_EXTERNREF,
};
use crate::le_bytes::{u32_le_at, u64_le_at, read_u32_le_at, read_u64_le_at};
use crate::leb128::{spec_leb_u32, spec_leb_i32, spec_leb_i64, read_leb_u32, read_leb_i32, read_leb_i64};
use crate::text::{push_str, push_hex2, push_decimal, hex2, decimal};

verus! {

pub const OPCODE_END: u8 = 0x0b;
pub const OPCODE_GLOBAL_GET: u8 = 0x23;
pub const OPCODE_I32_CONST: u8 = 0x41;
pub const OPCODE_I64_CONST: u8 = 0x42;
pub const OPCODE_F32_CONST: u8 = 0x43;
pub const OPCODE_F64_CONST: u8 = 0x44;
pub const OPCODE_REF_NULL: u8 = 0xd0;
pub const OPCODE_REF_FUNC: u8 = 0xd2;
pub const OPCODE_VEC_PREFIX: u8 = 0xfd;
pub const OPCODE_VEC_V128_CONST: u32 = 0x0c;

/// The value of a global as the linked runtime stores it: the low and high
/// 64 bits (the high half is used by `v128` only).
#[derive(Clone, Copy, Debug, PartialEq, Eq, Structural)]
pub struct LinkedGlobalValue {
    pub value_lo: u64,
    pub value_hi: u64,
}

/// Why a constant expression could not be evaluated.
#[derive(Clone, Copy, Debug, PartialEq, Eq, Structural)]
pub enum ConstExprError {
    Empty,
    InvalidOpcode(u8),
    MalformedImmediate(u8),
    MissingEnd,
    UnknownGlobal(u32),
    UnknownFunction(u32),
}

/// The slot of the first function, at `from` or after, whose wasm index is
/// `index`.
pub open spec fn first_function_slot(fs: Seq<AotFunctionMetadata>, index: u32, from: nat) -> Option<nat>
    decreases fs.len() - from,
{
    if from >= fs.len() {
        None
    } else if fs[from as int].wasm_function_index == index {
        Some(from)
    } else {
        first_function_slot(fs, index, from + 1)
    }
}

pub proof fn lemma_first_function_slot_bounds(fs: Seq<AotFunctionMetadata>, index: u32, from: nat)
    ensures
        first_function_slot(fs, index, from) matches Some(s) ==> from <= s < fs.len()
            && fs[s as int].wasm_function_index == index,
    decreases fs.len() - from,
{
    if from < fs.len() && fs[from as int].wasm_function_index != index {
        lemma_first_function_slot_bounds(fs, index, from + 1);
    }
}

/// The slot of the first local function with the given wasm index.
pub fn find_function(functions: &[AotFunctionMetadata], index: u32) -> (res: Option<usize>)
    ensures
        match first_function_slot(functions@, index, 0) {
            None => res is None,
            Some(s) => res matches Some(r) && r == s,
        },
        res matches Some(s) ==> s < functions@.len() && functions@[s as int].wasm_function_index
            == index,
{
    proof {
        lemma_first_function_slot_bounds(functions@, index, 0);
    }
    let n = functions.len();
    let mut i: usize = 0;
    while i < n
        invariant
            n == functions@.len(),
            i <= n,
            first_function_slot(functions@, index, 0) == first_function_slot(functions@, index, i as nat),
        decreases n - i,
    {
        if functions[i].wasm_function_index == index {
            return Some(i);
        }
        i = i + 1;
    }
    None
}

/// The value type an opcode's immediate reads as, with the bytes it takes,
/// for the opcodes whose result depends on the immediate alone.
pub open spec fn spec_const_immediate(op: u8, rest: Seq<u8>) -> Option<(Seq<u64>, u8, nat)> {
    if op == OPCODE_I32_CONST {
        match spec_leb_i32(rest) {
            Some((v, n)) => Some((seq![v as u32 as u64], VALUE_TYPE_I32, n)),
            None => None,
        }
    } else if op == OPCODE_I64_CONST {
        match spec_leb_i64(rest) {
            Some((v, n)) => Some((seq![v as u64], VALUE_TYPE_I64, n)),
            None => None,
        }
    } else if op == OPCODE_F32_CONST {
        if rest.len() >= 4 {
            Some((seq![u32_le_at(rest, 0) as u64], VALUE_TYPE_F32, 4))
        } else {
            None
        }
    } else if op == OPCODE_F64_CONST {
        if rest.len() >= 8 {
            Some((seq![u64_le_at(rest, 0)], VALUE_TYPE_F64, 8))
        } else {
            None
        }
    } else if op == OPCODE_REF_NULL {
        if rest.len() >= 1 && (rest[0] == REF_TYPE_FUNCREF || rest[0] == REF_TYPE_EXTERNREF) {
            Some((seq![0u64], rest[0], 1))
        } else {
            None
        }
    } else {
        match spec_leb_u32(rest) {
            Some((sub, n)) => if sub == OPCODE_VEC_V128_CONST && rest.len() >= n + 16 {
                Some((seq![u64_le_at(rest, n as int), u64_le_at(rest, n as int + 8)], VALUE_TYPE_V128, n + 16))
            } else {
                None
            },
            None => None,
        }
    }
}

/// What one instruction of a constant expression yields: its values, its
/// type and the bytes its immediate takes.
pub open spec fn spec_const_instruction(
    op: u8,
    rest: Seq<u8>,
    global_types: Seq<AotGlobalTypeMetadata>,
    globals: Seq<LinkedGlobalValue>,
    functions: Seq<AotFunctionMetadata>,
) -> Result<(Seq<u64>, u8, nat), ConstExprError> {
    if op == OPCODE_GLOBAL_GET {
        match spec_leb_u32(rest) {
            None => Err(ConstExprError::MalformedImmediate(op)),
            Some((index, n)) => if index < globals.len() && index < global_types.len() {
                let t = global_types[index as int].val_type;
                let g = globals[index as int];
                Ok((if t == VALUE_TYPE_V128 { seq![g.value_lo, g.value_hi] } else { seq![g.value_lo] }, t, n))
            } else {
                Err(ConstExprError::UnknownGlobal(index))
            },
        }
    } else if op == OPCODE_REF_FUNC {
        match spec_leb_u32(rest) {
            None => Err(ConstExprError::MalformedImmediate(op)),
            Some((index, n)) => if first_function_slot(functions, index, 0) is Some {
                Ok((seq![0u64], VALUE_TYPE_FUNCREF, n))
            } else {
                Err(ConstExprError::UnknownFunction(index))
            },
        }
    } else if op == OPCODE_I32_CONST || op == OPCODE_I64_CONST || op == OPCODE_F32_CONST || op
        == OPCODE_F64_CONST || op == OPCODE_REF_NULL || op == OPCODE_VEC_PREFIX {
        match spec_const_immediate(op, rest) {
            Some((vals, t, n)) => Ok((vals, t, n)),
            None => Err(ConstExprError::MalformedImmediate(op)),
        }
    } else {
        Err(ConstExprError::InvalidOpcode(op))
    }
}

/// The values and type of a constant expression: one instruction followed by
/// `end`. A `global.get` reads the globals evaluated so far; a `ref.func`
/// must name a local function and yields a null reference value.
pub open spec fn spec_eval_const(
    expr: Seq<u8>,
    global_types: Seq<AotGlobalTypeMetadata>,
    globals: Seq<LinkedGlobalValue>,
    functions: Seq<AotFunctionMetadata>,
) -> Result<(Seq<u64>, u8), ConstExprError> {
    if expr.len() == 0 {
        Err(ConstExprError::Empty)
    } else {
        match spec_const_instruction(expr[0], expr.drop_first(), global_types, globals, functions) {
            Err(e) => Err(e),
            Ok((vals, t, n)) => if 1 + n < expr.len() && expr[1 + n as int] == OPCODE_END {
                Ok((vals, t))
            } else {
                Err(ConstExprError::MissingEnd)
            },
        }
    }
}

/// Whether an evaluation result matches its specification.
pub open spec fn const_result_matches(
    res: Result<(Vec<u64>, u8), ConstExprError>,
    spec: Result<(Seq<u64>, u8), ConstExprError>,
) -> bool {
    match spec {
        Ok((vals, t)) => res matches Ok((v, t2)) && v@ == vals && t2 == t,
        Err(e) => res matches Err(e2) && e2 == e,
    }
}

fn one_value(x: u64) -> (v: Vec<u64>)
    ensures
        v@ == seq![x],
{
    let mut v = Vec::new();
    v.push(x);
    assert(v@ =~= seq![x]);
    v
}

fn two_values(x: u64, y: u64) -> (v: Vec<u64>)
    ensures
        v@ == seq![x, y],
{
    let mut v = Vec::new();
    v.push(x);
    v.push(y);
    assert(v@ =~= seq![x, y]);
    v
}

fn eval_immediate(op: u8, expr: &[u8]) -> (res: Option<(Vec<u64>, u8, usize)>)
    requires
        1 <= expr@.len(),
    ensures
        match spec_const_immediate(op, expr@.drop_first()) {
            None => res is None,
            Some((vals, t, n)) => res matches Some((v, t2, n2)) && v@ == vals && t2 == t && n2 == n
                && 1 + n <= expr@.len(),
        },
{
    let ghost rest = expr@.drop_first();
    assert(rest =~= expr@.subrange(1, expr@.len() as int));
    if op == OPCODE_I32_CONST {
        match read_leb_i32(expr, 1) {
            Some((v, n)) => Some((one_value(v as u32 as u64), VALUE_TYPE_I32, n)),
            None => None,
        }
    } else if op == OPCODE_I64_CONST {
        match read_leb_i64(expr, 1) {
            Some((v, n)) => Some((one_value(v as u64), VALUE_TYPE_I64, n)),
            None => None,
        }
    } else if op == OPCODE_F32_CONST {
        if expr.len() - 1 >= 4 {
            let bits = read_u32_le_at(expr, 1);
            assert(u32_le_at(expr@, 1) == u32_le_at(rest, 0));
            Some((one_value(bits as u64), VALUE_TYPE_F32, 4))
        } else {
            None
        }
    } else if op == OPCODE_F64_CONST {
        if expr.len() - 1 >= 8 {
            let bits = read_u64_le_at(expr, 1);
            assert(u64_le_at(expr@, 1) == u64_le_at(rest, 0));
            Some((one_value(bits), VALUE_TYPE_F64, 8))
        } else {
            None
        }
    } else if op == OPCODE_REF_NULL {
        if expr.len() >= 2 && (expr[1] == REF_TYPE_FUNCREF || expr[1] == REF_TYPE_EXTERNREF) {
            Some((one_value(0u64), expr[1], 1))
        } else {
            None
        }
    } else {
        match read_leb_u32(expr, 1) {
            Some((sub, n)) => if sub == OPCODE_VEC_V128_CONST && expr.len() - 1 - n >= 16 {
                let lo = read_u64_le_at(expr, 1 + n);
                let hi = read_u64_le_at(expr, 1 + n + 8);
                assert(u64_le_at(expr@, 1 + n) == u64_le_at(rest, n as int));
                assert(u64_le_at(expr@, 1 + n + 8) == u64_le_at(rest, n as int + 8));
                Some((two_values(lo, hi), VALUE_TYPE_V128, n + 16))
            } else {
                None
            },
            None => None,
        }
    }
}

fn eval_instruction(
    expr: &[u8],
    global_types: &[AotGlobalTypeMetadata],
    globals: &[LinkedGlobalValue],
    functions: &[AotFunctionMetadata],
) -> (res: Result<(Vec<u64>, u8, usize), ConstExprError>)
    requires
        1 <= expr@.len(),
    ensures
        match spec_const_instruction(expr@[0], expr@.drop_first(), global_types@, globals@, functions@) {
            Ok((vals, t, n)) => res matches Ok((v, t2, n2)) && v@ == vals && t2 == t && n2 == n
                && 1 + n <= expr@.len(),
            Err(e) => res == Err::<(Vec<u64>, u8, usize), ConstExprError>(e),
        },
{
    let op = expr[0];
    let ghost rest = expr@.drop_first();
    assert(rest =~= expr@.subrange(1, expr@.len() as int));
    if op == OPCODE_GLOBAL_GET {
        match read_leb_u32(expr, 1) {
            None => Err(ConstExprError::MalformedImmediate(op)),
            Some((index, n)) => {
                let i = index as usize;
                if i < globals.len() && i < global_types.len() {
                    let t = global_types[i].val_type;
                    let g = globals[i];
                    if t == VALUE_TYPE_V128 {
                        Ok((two_values(g.value_lo, g.value_hi), t, n))
                    } else {
                        Ok((one_value(g.value_lo), t, n))
                    }
                } else {
                    Err(ConstExprError::UnknownGlobal(index))
                }
            },
        }
    } else if op == OPCODE_REF_FUNC {
        match read_leb_u32(expr, 1) {
            None => Err(ConstExprError::MalformedImmediate(op)),
            Some((index, n)) => match find_function(functions, index) {
                Some(_) => Ok((one_value(0u64), VALUE_TYPE_FUNCREF, n)),
                None => Err(ConstExprError::UnknownFunction(index)),
            },
        }
    } else if op == OPCODE_I32_CONST || op == OPCODE_I64_CONST || op == OPCODE_F32_CONST || op
        == OPCODE_F64_CONST || op == OPCODE_REF_NULL || op == OPCODE_VEC_PREFIX {
        match eval_immediate(op, expr) {
            Some((vals, t, n)) => Ok((vals, t, n)),
            None => Err(ConstExprError::MalformedImmediate(op)),
        }
    } else {
        Err(ConstExprError::InvalidOpcode(op))
    }
}

/// Evaluates a constant expression against the global types, the globals
/// evaluated so far and the local functions.
pub fn evaluate_const_expr(
    expr: &[u8],
    global_types: &[AotGlobalTypeMetadata],
    globals: &[LinkedGlobalValue],
    functions: &[AotFunctionMetadata],
) -> (res: Result<(Vec<u64>, u8), ConstExprError>)
    ensures
        const_result_matches(res, spec_eval_const(expr@, global_types@, globals@, functions@)),
{
    if expr.len() == 0 {
        return Err(ConstExprError::Empty);
    }
    let step = eval_instruction(expr, global_types, globals, functions);
    match step {
        Err(e) => Err(e),
        Ok((vals, t, n)) => {
            if n < expr.len() - 1 && expr[1 + n] == OPCODE_END {
                Ok((vals, t))
            } else {
                Err(ConstExprError::MissingEnd)
            }
        },
    }
}

/// The text of a constant-expression error.
pub open spec fn const_expr_error_text(e: ConstExprError) -> Seq<char> {
    match e {
        ConstExprError::Empty => "constant expression is empty"@,
        ConstExprError::InvalidOpcode(op) => "invalid opcode for const expression: 0x"@ + hex2(op),
        ConstExprError::MalformedImmediate(op) => "malformed immediate for const expression opcode 0x"@
            + hex2(op),
        ConstExprError::MissingEnd => "constant expression is not terminated by end"@,
        ConstExprError::UnknownGlobal(i) => "constant expression references unknown global "@
            + decimal(i as nat),
        ConstExprError::UnknownFunction(i) => "constant expression references unknown function "@
            + decimal(i as nat),
    }
}

impl ConstExprError {
    /// Appends the error's text to `s`.
    pub fn write_message(&self, s: &mut String)
        ensures
            final(s)@ == old(s)@ + const_expr_error_text(*self),
    {
        match *self {
            ConstExprError::Empty => push_str(s, "constant expression is empty"),
            ConstExprError::InvalidOpcode(op) => {
                push_str(s, "invalid opcode for const expression: 0x");
                push_hex2(s, op);
            },
            ConstExprError::MalformedImmediate(op) => {
                push_str(s, "malformed immediate for const expression opcode 0x");
                push_hex2(s, op);
            },
            ConstExprError::MissingEnd => push_str(s, "constant expression is not terminated by end"),
            ConstExprError::UnknownGlobal(i) => {
                push_str(s, "constant expression references unknown global ");
                push_decimal(s, i as u64);
            },
            ConstExprError::UnknownFunction(i) => {
                push_str(s, "constant expression references unknown function ");
                push_decimal(s, i as u64);
            },
        }
        assert(s@ =~= old(s)@ + const_expr_error_text(*self));
    }
}

} // verus!
