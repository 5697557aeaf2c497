use razero_compiler::aot::{
    AotCompiledMetadata, AotDataSegmentMetadata, AotElementSegmentMetadata,
    AotExecutionContextMetadata, AotFunctionMetadata, AotFunctionTypeMetadata,
    AotGlobalInitializerMetadata, AotGlobalTypeMetadata, AotMemoryMetadata,
    AotModuleContextMetadata, AotModuleShapeMetadata, AotTableMetadata, AotTarget,
    AotTargetArchitecture, AotTargetOperatingSystem, ElementMode, REF_TYPE_EXTERNREF,
    REF_TYPE_FUNCREF, VALUE_TYPE_I32,
};
use razero_compiler::const_expr::LinkedGlobalValue;
use razero_compiler::hostmodule::{
    build_host_module_opaque, host_func_ref_words, host_module_address, read_usize, write_usize,
};
use razero_compiler::module_engine::{write_optional_slice_ptr, write_u64};
use razero_compiler::linked_module::{text_base_for_first_local_function, LinkedModuleError};
use razero_compiler::runtime_support::{
    initialize_module_context, linked_function_instances, table_element_slots, validate_metadata,
    LinkedFunctionInstance,
};

const HOST: Option<AotTargetArchitecture> = Some(AotTargetArchitecture::X86_64);

fn base_metadata() -> AotCompiledMetadata {
    AotCompiledMetadata {
        target: AotTarget {
            operating_system: AotTargetOperatingSystem::Linux,
            architecture: AotTargetArchitecture::X86_64,
        },
        execution_context: AotExecutionContextMetadata::current(),
        types: vec![AotFunctionTypeMetadata::default()],
        functions: vec![AotFunctionMetadata {
            local_function_index: 0,
            wasm_function_index: 0,
            type_index: 0,
            executable_offset: 0,
            executable_len: 4,
        }],
        module_shape: AotModuleShapeMetadata {
            local_function_count: 1,
            ..AotModuleShapeMetadata::default()
        },
        ..AotCompiledMetadata::default()
    }
}

fn with_memory(mut m: AotCompiledMetadata) -> AotCompiledMetadata {
    m.memory = Some(AotMemoryMetadata { min: 1, cap: 1, max: 1, is_max_encoded: true, is_shared: false });
    m.module_shape.has_local_memory = true;
    m.module_shape.has_any_memory = true;
    m
}

fn with_table(mut m: AotCompiledMetadata, ty: u8) -> AotCompiledMetadata {
    m.tables.push(AotTableMetadata { min: 1, max: Some(1), ty });
    m.module_shape.local_table_count += 1;
    m
}

fn with_element(mut m: AotCompiledMetadata, table_index: u32, ty: u8, mode: ElementMode) -> AotCompiledMetadata {
    m.element_segments.push(AotElementSegmentMetadata {
        offset_expression: vec![0x41, 0, 0x0b],
        table_index,
        init_expressions: vec![vec![0xd2, 0, 0x0b]],
        ty,
        mode,
    });
    m.module_shape.element_segment_count += 1;
    m
}

fn with_data(mut m: AotCompiledMetadata, offset_expression: Vec<u8>, passive: bool) -> AotCompiledMetadata {
    m.data_segments.push(AotDataSegmentMetadata { offset_expression, init: vec![1], passive });
    m.module_shape.data_segment_count += 1;
    m
}

#[test]
fn linked_module_accepts_a_plain_module() {
    assert_eq!(validate_metadata(&base_metadata(), HOST), Ok(()));
}

#[test]
fn linked_module_rejects_imported_runtime_shapes() {
    let mut m = base_metadata();
    m.module_shape.import_function_count = 1;
    assert!(validate_metadata(&m, HOST)
        .unwrap_err()
        .contains("linked runtime packaging currently requires modules without imports"));
}

#[test]
fn linked_module_rejects_shared_memory_runtime_shapes() {
    let mut m = with_memory(base_metadata());
    m.memory.as_mut().unwrap().is_shared = true;
    assert!(validate_metadata(&m, HOST)
        .unwrap_err()
        .contains("linked runtime packaging does not support shared memories or atomics integration"));
}

#[test]
fn linked_module_rejects_host_module_runtime_shapes() {
    let mut m = base_metadata();
    m.module_shape.is_host_module = true;
    assert!(validate_metadata(&m, HOST)
        .unwrap_err()
        .contains("host modules are not supported by linked runtime packaging"));
}

#[test]
fn linked_module_rejects_runtime_injected_termination_helpers() {
    let mut m = base_metadata();
    m.ensure_termination = true;
    assert!(validate_metadata(&m, HOST)
        .unwrap_err()
        .contains("linked runtime packaging does not support runtime-injected termination helpers"));
}

#[test]
fn linked_module_rejects_passive_data_segments() {
    let m = with_data(with_memory(base_metadata()), vec![0x41, 0, 0x0b], true);
    assert!(validate_metadata(&m, HOST)
        .unwrap_err()
        .contains("data[0] is passive; linked runtime packaging only supports active data segments"));
}

#[test]
fn linked_module_rejects_active_data_without_local_memory() {
    let m = with_data(base_metadata(), vec![0x41, 0, 0x0b], false);
    assert!(validate_metadata(&m, HOST)
        .unwrap_err()
        .contains("active data segments require a defined local memory in linked runtime packaging"));
}

#[test]
fn linked_module_rejects_passive_element_segments() {
    let m = with_element(with_table(base_metadata(), REF_TYPE_FUNCREF), 0, REF_TYPE_FUNCREF, ElementMode::Passive);
    assert!(validate_metadata(&m, HOST)
        .unwrap_err()
        .contains("element[0] uses Passive; linked runtime packaging only supports active element segments"));
}

#[test]
fn linked_module_rejects_element_segments_with_unknown_table() {
    let m = with_element(with_table(base_metadata(), REF_TYPE_FUNCREF), 1, REF_TYPE_FUNCREF, ElementMode::Active);
    assert!(validate_metadata(&m, HOST)
        .unwrap_err()
        .contains("element[0] references unknown table 1"));
}

#[test]
fn linked_module_rejects_non_funcref_tables() {
    let m = with_table(base_metadata(), REF_TYPE_EXTERNREF);
    assert!(validate_metadata(&m, HOST)
        .unwrap_err()
        .contains("table[0] uses externref, only funcref tables are supported by linked runtime packaging"));
}

#[test]
fn linked_module_rejects_non_funcref_element_segments() {
    let m = with_element(with_table(base_metadata(), REF_TYPE_FUNCREF), 0, REF_TYPE_EXTERNREF, ElementMode::Active);
    assert!(validate_metadata(&m, HOST)
        .unwrap_err()
        .contains("element[0] uses externref; linked runtime packaging only supports funcref element segments"));
}

#[test]
fn linked_module_rejects_inconsistent_table_counts() {
    let mut m = with_table(base_metadata(), REF_TYPE_FUNCREF);
    m.module_shape.local_table_count = 0;
    assert!(validate_metadata(&m, HOST)
        .unwrap_err()
        .contains("linked runtime metadata has inconsistent table counts"));
}

#[test]
fn linked_module_rejects_inconsistent_element_segment_counts() {
    let mut m = with_element(with_table(base_metadata(), REF_TYPE_FUNCREF), 0, REF_TYPE_FUNCREF, ElementMode::Active);
    m.module_shape.element_segment_count = 0;
    assert!(validate_metadata(&m, HOST)
        .unwrap_err()
        .contains("linked runtime metadata has inconsistent element segment counts"));
}

#[test]
fn linked_module_rejects_inconsistent_global_counts() {
    let mut m = base_metadata();
    m.globals.push(AotGlobalTypeMetadata { val_type: VALUE_TYPE_I32, mutable: false });
    m.global_initializers.push(AotGlobalInitializerMetadata { init_expression: vec![0x41, 0, 0x0b] });
    assert!(validate_metadata(&m, HOST)
        .unwrap_err()
        .contains("linked runtime metadata has inconsistent global counts"));
}

#[test]
fn linked_module_rejects_inconsistent_data_segment_counts() {
    let mut m = with_data(with_memory(base_metadata()), vec![0x41, 0, 0x0b], false);
    m.module_shape.data_segment_count = 0;
    assert!(validate_metadata(&m, HOST)
        .unwrap_err()
        .contains("linked runtime metadata has inconsistent data segment counts"));
}

#[test]
fn linked_module_rejects_mismatched_global_initializer_type() {
    let mut m = base_metadata();
    m.globals.push(AotGlobalTypeMetadata { val_type: VALUE_TYPE_I32, mutable: false });
    m.global_initializers.push(AotGlobalInitializerMetadata { init_expression: vec![0x42, 0, 0x0b] });
    m.module_shape.local_global_count = 1;
    assert!(validate_metadata(&m, HOST)
        .unwrap_err()
        .contains("global[0] initializer type i64 does not match declared type i32"));
}

#[test]
fn linked_module_rejects_invalid_data_offset_opcode() {
    let m = with_data(with_memory(base_metadata()), vec![0xff, 0x0b], false);
    assert!(validate_metadata(&m, HOST)
        .unwrap_err()
        .contains("invalid opcode for const expression: 0xff"));
}

#[test]
fn linked_module_rejects_non_linux_x86_64_targets() {
    let mut m = base_metadata();
    m.target.operating_system = AotTargetOperatingSystem::Darwin;
    assert_eq!(
        validate_metadata(&m, HOST).unwrap_err(),
        "linked module metadata does not target Linux/x86_64"
    );
    assert_eq!(
        validate_metadata(&base_metadata(), None).unwrap_err(),
        "linked AOT startup support currently targets Linux/x86_64 and Linux/aarch64 only"
    );
}

#[test]
fn linked_module_rejects_execution_context_abi_mismatch() {
    let mut m = base_metadata();
    m.execution_context.size = 8;
    assert_eq!(
        validate_metadata(&m, HOST).unwrap_err(),
        "linked module execution-context ABI does not match this runtime"
    );
}

#[test]
fn module_context_receives_memory_globals_type_ids_and_tables() {
    let ctx = AotModuleContextMetadata {
        total_size: 80,
        local_memory_begin: 0,
        globals_begin: 16,
        type_ids_1st_element: 48,
        tables_begin: 56,
        imported_memory_begin: -1,
        imported_functions_begin: -1,
        ..AotModuleContextMetadata::default()
    };
    let mut bytes = vec![0u8; 80];
    let globals = vec![LinkedGlobalValue { value_lo: 1, value_hi: 2 }, LinkedGlobalValue { value_lo: 3, value_hi: 4 }];
    initialize_module_context(&ctx, Some((0x1000, 65536)), &globals, Some(0x2000), &[0x3000, 0x4000], &mut bytes);
    let word = |at: usize| u64::from_le_bytes(bytes[at..at + 8].try_into().unwrap());
    assert_eq!(word(0), 0x1000);
    assert_eq!(word(8), 65536);
    assert_eq!(word(16), 1);
    assert_eq!(word(24), 2);
    assert_eq!(word(32), 3);
    assert_eq!(word(40), 4);
    assert_eq!(word(48), 0x2000);
    assert_eq!(word(56), 0x3000);
    assert_eq!(word(64), 0x4000);
    assert_eq!(word(72), 0);
}

#[test]
fn module_context_skips_absent_regions() {
    let ctx = AotModuleContextMetadata {
        local_memory_begin: -1,
        globals_begin: -1,
        type_ids_1st_element: -1,
        tables_begin: -1,
        ..AotModuleContextMetadata::default()
    };
    let mut bytes = vec![0u8; 8];
    initialize_module_context(&ctx, None, &[], Some(5), &[7], &mut bytes);
    assert_eq!(bytes, vec![0u8; 8]);
}

#[test]
fn words_are_written_little_endian() {
    let mut bytes = vec![0u8; 12];
    write_u64(&mut bytes, 2, 0x0102_0304_0506_0708);
    assert_eq!(bytes, vec![0, 0, 8, 7, 6, 5, 4, 3, 2, 1, 0, 0]);
    let mut bytes = vec![0u8; 16];
    write_optional_slice_ptr(&mut bytes, -1, 9, false);
    write_optional_slice_ptr(&mut bytes, 0, 9, true);
    assert_eq!(bytes, vec![0u8; 16]);
    write_optional_slice_ptr(&mut bytes, 8, 9, false);
    assert_eq!(bytes[8], 9);
    let mut bytes = vec![0xffu8; 10];
    write_usize(&mut bytes, 1, 0x0201);
    assert_eq!(&bytes[..4], &[0xff, 0x01, 0x02, 0x00]);
    assert_eq!(bytes[1 + std::mem::size_of::<usize>()], 0xff);
}

/// What compiling a one-function module records: the function's type, the
/// function at text offset 0, and the start section if there is one.
fn single_function_module(params: &[u8], results: &[u8], start: Option<u32>) -> AotCompiledMetadata {
    let mut m = base_metadata();
    m.types = vec![AotFunctionTypeMetadata {
        params: params.to_vec(),
        results: results.to_vec(),
        param_num_in_u64: params.len(),
        result_num_in_u64: results.len(),
    }];
    m.start_function_index = start;
    m
}

/// Constructing a linked module from its first local function: find the text
/// base, then check that this runtime can start the module.
fn construct(metadata: &AotCompiledMetadata, first_local_function_ptr: usize) -> Result<usize, String> {
    let text_base = text_base_for_first_local_function(metadata, first_local_function_ptr).map_err(|e| match e {
        LinkedModuleError::InvalidMetadata(m) | LinkedModuleError::Unsupported(m) | LinkedModuleError::Compile(m) => m,
        LinkedModuleError::Call(e) => format!("{e:?}"),
    })?;
    validate_metadata(metadata, HOST)?;
    Ok(text_base)
}

#[test]
fn linked_module_construction_rejects_value_returning_start_section() {
    let metadata = single_function_module(&[], &[VALUE_TYPE_I32], Some(0));
    let err = construct(&metadata, 0x4000).unwrap_err();
    assert!(err.contains("start functions must use the () -> () signature"));
}

#[test]
fn linked_module_construction_rejects_start_section_without_local_function_metadata() {
    let mut metadata = single_function_module(&[], &[], None);
    metadata.start_function_index = Some(7);
    let err = construct(&metadata, 0x4000).unwrap_err();
    assert!(err.contains("linked module metadata has no local start function 7"));
}

#[test]
fn linked_module_construction_rejects_parameterized_start_section() {
    let metadata = single_function_module(&[VALUE_TYPE_I32], &[], Some(0));
    let err = construct(&metadata, 0x4000).unwrap_err();
    assert!(err.contains("start functions must use the () -> () signature"));
}

#[test]
fn linked_module_construction_rejects_start_section_with_missing_type_metadata() {
    let mut metadata = single_function_module(&[], &[], Some(0));
    metadata.functions[0].type_index = 7;
    let err = construct(&metadata, 0x4000).unwrap_err();
    assert!(err.contains("linked module metadata is missing type 7"));
}

#[test]
fn linked_module_construction_accepts_a_void_start_section() {
    let metadata = single_function_module(&[], &[], Some(0));
    assert_eq!(construct(&metadata, 0x4000), Ok(0x4000));
}

#[test]
fn host_module_slots_read_back_each_reference() {
    let funcs = [(1usize, 2usize), (0x30, 0x40), (usize::MAX, 0)];
    let opaque = build_host_module_opaque(0x5000, &funcs);
    assert_eq!(opaque.len(), 32 + 16 * 3);
    assert_eq!(host_module_address(&opaque), 0x5000);
    for (i, f) in funcs.iter().enumerate() {
        assert_eq!(host_func_ref_words(&opaque, i), *f);
    }
    assert_eq!(read_usize(&[0, 1, 0, 0, 0, 0, 0, 0, 0], 1), 1);
}

fn local(wasm_function_index: u32, type_index: u32, executable_offset: usize) -> AotFunctionMetadata {
    AotFunctionMetadata {
        local_function_index: wasm_function_index,
        wasm_function_index,
        type_index,
        executable_offset,
        executable_len: 4,
    }
}

#[test]
fn linked_function_instances_point_into_the_text() {
    let functions = [local(2, 0, 0), local(3, 1, 16)];
    let instances = linked_function_instances(&functions, 0x40_000, 0x9000);
    assert_eq!(
        instances,
        vec![
            LinkedFunctionInstance { executable_ptr: 0x40_000, module_context_ptr: 0x9000, type_id: 0, reserved: 0 },
            LinkedFunctionInstance { executable_ptr: 0x40_010, module_context_ptr: 0x9000, type_id: 1, reserved: 0 },
        ]
    );
}

#[test]
fn table_elements_resolve_to_function_slots() {
    let functions = [local(2, 0, 0), local(3, 1, 16), local(3, 0, 32)];
    assert_eq!(
        table_element_slots(&functions, &[Some(3), None, Some(2), Some(9)]),
        vec![Some(1), None, Some(0), None]
    );
}
