//! The AOT metadata that describes a compiled module to the native linker and
//! to the linked runtime: its types, functions, imports, exports, memory,
//! tables, globals, segments and module-context layout.

use vstd::prelude::*;

verus! {

/// The binary encodings of the WebAssembly value types.
pub const VALUE_TYPE_I32: u8 = 0x7f;
pub const VALUE_TYPE_I64: u8 = 0x7e;
pub const VALUE_TYPE_F32: u8 = 0x7d;
pub const VALUE_TYPE_F64: u8 = 0x7c;
pub const VALUE_TYPE_V128: u8 = 0x7b;
pub const VALUE_TYPE_FUNCREF: u8 = 0x70;
pub const VALUE_TYPE_EXTERNREF: u8 = 0x6f;

/// The binary encodings of the reference types.
pub const REF_TYPE_FUNCREF: u8 = 0x70;
pub const REF_TYPE_EXTERNREF: u8 = 0x6f;

/// The kinds of an import or export.
pub const EXTERN_TYPE_FUNC: u8 = 0;
pub const EXTERN_TYPE_TABLE: u8 = 1;
pub const EXTERN_TYPE_MEMORY: u8 = 2;
pub const EXTERN_TYPE_GLOBAL: u8 = 3;

/// How an element segment is used.
#[derive(Clone, Copy, Debug, Default, PartialEq, Eq, Structural)]
pub enum ElementMode {
    #[default]
    Active,
    Passive,
    Declarative,
}

#[derive(Clone, Copy, Debug, Default, PartialEq, Eq, Structural)]
pub enum AotTargetArchitecture {
    X86_64,
    Aarch64,
    #[default]
    Unknown,
}

#[derive(Clone, Copy, Debug, Default, PartialEq, Eq, Structural)]
pub enum AotTargetOperatingSystem {
    Linux,
    Darwin,
    Windows,
    #[default]
    Unknown,
}

#[derive(Clone, Copy, Debug, Default, PartialEq, Eq, Structural)]
pub struct AotTarget {
    pub operating_system: AotTargetOperatingSystem,
    pub architecture: AotTargetArchitecture,
}

#[derive(Clone, Debug, Default, PartialEq, Eq)]
pub struct AotFunctionTypeMetadata {
    pub params: Vec<u8>,
    pub results: Vec<u8>,
    pub param_num_in_u64: usize,
    pub result_num_in_u64: usize,
}

#[derive(Clone, Copy, Debug, Default, PartialEq, Eq, Structural)]
pub struct AotMemoryMetadata {
    pub min: u32,
    pub cap: u32,
    pub max: u32,
    pub is_max_encoded: bool,
    pub is_shared: bool,
}

#[derive(Clone, Copy, Debug, Default, PartialEq, Eq)]
pub struct AotTableMetadata {
    pub min: u32,
    pub max: Option<u32>,
    pub ty: u8,
}

#[derive(Clone, Copy, Debug, Default, PartialEq, Eq, Structural)]
pub struct AotGlobalTypeMetadata {
    pub val_type: u8,
    pub mutable: bool,
}

#[derive(Clone, Debug, PartialEq, Eq)]
pub enum AotImportDescMetadata {
    Func(u32),
    Table(AotTableMetadata),
    Memory(AotMemoryMetadata),
    Global(AotGlobalTypeMetadata),
}

#[derive(Clone, Debug, PartialEq, Eq)]
pub struct AotImportMetadata {
    pub ty: u8,
    pub module: String,
    pub name: String,
    pub desc: AotImportDescMetadata,
    pub index_per_type: u32,
}

#[derive(Clone, Debug, Default, PartialEq, Eq)]
pub struct AotExportMetadata {
    pub name: String,
    pub ty: u8,
    pub index: u32,
}

#[derive(Clone, Copy, Debug, Default, PartialEq, Eq, Structural)]
pub struct AotFunctionMetadata {
    pub local_function_index: u32,
    pub wasm_function_index: u32,
    pub type_index: u32,
    pub executable_offset: usize,
    pub executable_len: usize,
}

#[derive(Clone, Debug, Default, PartialEq, Eq)]
pub struct AotGlobalInitializerMetadata {
    pub init_expression: Vec<u8>,
}

#[derive(Clone, Debug, Default, PartialEq, Eq)]
pub struct AotDataSegmentMetadata {
    pub offset_expression: Vec<u8>,
    pub init: Vec<u8>,
    pub passive: bool,
}

#[derive(Clone, Debug, Default, PartialEq, Eq)]
pub struct AotElementSegmentMetadata {
    pub offset_expression: Vec<u8>,
    pub table_index: u32,
    pub init_expressions: Vec<Vec<u8>>,
    pub ty: u8,
    pub mode: ElementMode,
}

#[derive(Clone, Copy, Debug, Default, PartialEq, Eq, Structural)]
pub struct AotRelocationMetadata {
    pub executable_offset: i64,
    pub is_tail_call: bool,
    pub target_function_index: u32,
}

/// Byte offsets of the module context's regions; a negative offset marks an
/// absent region.
#[derive(Clone, Copy, Debug, Default, PartialEq, Eq, Structural)]
pub struct AotModuleContextMetadata {
    pub total_size: usize,
    pub module_instance_offset: i32,
    pub local_memory_begin: i32,
    pub imported_memory_begin: i32,
    pub imported_functions_begin: i32,
    pub globals_begin: i32,
    pub type_ids_1st_element: i32,
    pub tables_begin: i32,
    pub before_listener_trampolines_1st_element: i32,
    pub after_listener_trampolines_1st_element: i32,
    pub data_instances_1st_element: i32,
    pub element_instances_1st_element: i32,
}

/// Byte offsets of the execution context's fields, and its size.
#[derive(Clone, Copy, Debug, Default, PartialEq, Eq, Structural)]
pub struct AotExecutionContextMetadata {
    pub size: usize,
    pub exit_code_offset: usize,
    pub stack_pointer_before_go_call_offset: usize,
    pub go_call_return_address_offset: usize,
    pub frame_pointer_before_go_call_offset: usize,
    pub fuel_offset: usize,
}

impl AotExecutionContextMetadata {
    /// The execution-context layout of this runtime on 64-bit targets: the
    /// fields of `ExecutionContext` in declaration order, eight bytes each
    /// but the 64 saved 16-byte register pairs.
    pub open spec fn spec_current() -> AotExecutionContextMetadata {
        AotExecutionContextMetadata {
            size: 1192,
            exit_code_offset: 0,
            stack_pointer_before_go_call_offset: 56,
            go_call_return_address_offset: 48,
            frame_pointer_before_go_call_offset: 1152,
            fuel_offset: 1184,
        }
    }

    pub fn current() -> (res: AotExecutionContextMetadata)
        ensures
            res == Self::spec_current(),
    {
        AotExecutionContextMetadata {
            size: 1192,
            exit_code_offset: 0,
            stack_pointer_before_go_call_offset: 56,
            go_call_return_address_offset: 48,
            frame_pointer_before_go_call_offset: 1152,
            fuel_offset: 1184,
        }
    }
}

#[derive(Clone, Copy, Debug, Default, PartialEq, Eq, Structural)]
pub struct AotModuleShapeMetadata {
    pub import_function_count: u32,
    pub import_global_count: u32,
    pub import_memory_count: u32,
    pub import_table_count: u32,
    pub local_function_count: u32,
    pub local_global_count: u32,
    pub local_table_count: u32,
    pub has_local_memory: bool,
    pub has_any_memory: bool,
    pub has_start_section: bool,
    pub element_segment_count: u32,
    pub data_segment_count: u32,
    pub is_host_module: bool,
}

/// Everything that the linker and the linked runtime know of a compiled module.
#[derive(Clone, Debug, Default, PartialEq, Eq)]
pub struct AotCompiledMetadata {
    pub module_id: [u8; 32],
    pub target: AotTarget,
    pub execution_context: AotExecutionContextMetadata,
    pub module_context: AotModuleContextMetadata,
    pub module_shape: AotModuleShapeMetadata,
    pub types: Vec<AotFunctionTypeMetadata>,
    pub imports: Vec<AotImportMetadata>,
    pub exports: Vec<AotExportMetadata>,
    pub functions: Vec<AotFunctionMetadata>,
    pub memory: Option<AotMemoryMetadata>,
    pub tables: Vec<AotTableMetadata>,
    pub globals: Vec<AotGlobalTypeMetadata>,
    pub global_initializers: Vec<AotGlobalInitializerMetadata>,
    pub data_segments: Vec<AotDataSegmentMetadata>,
    pub element_segments: Vec<AotElementSegmentMetadata>,
    pub relocations: Vec<AotRelocationMetadata>,
    pub start_function_index: Option<u32>,
    pub ensure_termination: bool,
}

} // verus!
