use razero_compiler::aot::{
    AotCompiledMetadata, AotDataSegmentMetadata, AotElementSegmentMetadata, AotFunctionMetadata,
    AotFunctionTypeMetadata, AotGlobalInitializerMetadata, AotGlobalTypeMetadata,
    AotMemoryMetadata, AotModuleShapeMetadata, AotTableMetadata, ElementMode, REF_TYPE_EXTERNREF,
    REF_TYPE_FUNCREF, VALUE_TYPE_I32, VALUE_TYPE_I64,
};
use razero_compiler::const_expr::{evaluate_const_expr, ConstExprError, LinkedGlobalValue};
use razero_compiler::runtime_state::{
    build_linked_runtime_plan, evaluate_element_reference, validate_linked_runtime_metadata,
    LinkedPlanError,
};

fn function_type(params: &[u8], results: &[u8]) -> AotFunctionTypeMetadata {
    AotFunctionTypeMetadata {
        params: params.to_vec(),
        results: results.to_vec(),
        param_num_in_u64: params.len(),
        result_num_in_u64: results.len(),
    }
}

fn function(wasm_function_index: u32, type_index: u32) -> AotFunctionMetadata {
    AotFunctionMetadata {
        local_function_index: wasm_function_index,
        wasm_function_index,
        type_index,
        executable_offset: 0,
        executable_len: 0,
    }
}

fn memory(min: u32) -> AotMemoryMetadata {
    AotMemoryMetadata { min, cap: min, max: min, is_max_encoded: true, is_shared: false }
}

fn funcref_table(min: u32) -> AotTableMetadata {
    AotTableMetadata { min, max: Some(min), ty: REF_TYPE_FUNCREF }
}

/// Metadata of a module with the given sections, with consistent counts.
fn metadata(
    types: Vec<AotFunctionTypeMetadata>,
    functions: Vec<AotFunctionMetadata>,
    tables: Vec<AotTableMetadata>,
    memory: Option<AotMemoryMetadata>,
    globals: Vec<(u8, Vec<u8>)>,
    data: Vec<AotDataSegmentMetadata>,
    elements: Vec<AotElementSegmentMetadata>,
) -> AotCompiledMetadata {
    AotCompiledMetadata {
        module_shape: AotModuleShapeMetadata {
            local_function_count: functions.len() as u32,
            local_global_count: globals.len() as u32,
            local_table_count: tables.len() as u32,
            has_local_memory: memory.is_some(),
            has_any_memory: memory.is_some(),
            element_segment_count: elements.len() as u32,
            data_segment_count: data.len() as u32,
            ..AotModuleShapeMetadata::default()
        },
        types,
        functions,
        tables,
        memory,
        globals: globals
            .iter()
            .map(|(t, _)| AotGlobalTypeMetadata { val_type: *t, mutable: false })
            .collect(),
        global_initializers: globals
            .into_iter()
            .map(|(_, init)| AotGlobalInitializerMetadata { init_expression: init })
            .collect(),
        data_segments: data,
        element_segments: elements,
        ..AotCompiledMetadata::default()
    }
}

fn active_data(offset_expression: Vec<u8>, init: Vec<u8>) -> AotDataSegmentMetadata {
    AotDataSegmentMetadata { offset_expression, init, passive: false }
}

fn active_element(offset_expression: Vec<u8>, table_index: u32, init: Vec<Vec<u8>>) -> AotElementSegmentMetadata {
    AotElementSegmentMetadata {
        offset_expression,
        table_index,
        init_expressions: init,
        ty: REF_TYPE_FUNCREF,
        mode: ElementMode::Active,
    }
}

#[test]
fn linked_runtime_plan_applies_global_data_and_element_initializers() {
    let metadata = metadata(
        vec![function_type(&[], &[]), function_type(&[], &[VALUE_TYPE_I32])],
        vec![function(0, 1), function(1, 0)],
        vec![funcref_table(1)],
        Some(memory(1)),
        vec![(VALUE_TYPE_I32, vec![0x41, 0x00, 0x0b])],
        vec![active_data(vec![0x23, 0, 0x0b], vec![5])],
        vec![active_element(vec![0x23, 0, 0x0b], 0, vec![vec![0xd2, 0, 0x0b]])],
    );
    let plan = build_linked_runtime_plan(&metadata).unwrap();
    assert_eq!(plan.memory_bytes.unwrap()[0], 5);
    assert_eq!(plan.globals.len(), 1);
    assert_eq!(plan.tables[0].elements, vec![Some(0)]);
}

#[test]
fn linked_runtime_plan_supports_multiple_globals_tables_and_segments() {
    let metadata = metadata(
        vec![function_type(&[], &[])],
        vec![function(0, 0), function(1, 0)],
        vec![funcref_table(3), funcref_table(1)],
        Some(memory(1)),
        vec![
            (VALUE_TYPE_I32, vec![0x41, 0x01, 0x0b]),
            (VALUE_TYPE_I64, vec![0x42, 0x09, 0x0b]),
        ],
        vec![
            active_data(vec![0x23, 0, 0x0b], vec![0xaa]),
            active_data(vec![0x41, 0x03, 0x0b], vec![0xbb, 0xcc]),
        ],
        vec![
            active_element(vec![0x23, 0, 0x0b], 0, vec![vec![0xd2, 1, 0x0b], vec![0xd0, 0x70, 0x0b]]),
            active_element(vec![0x41, 0x00, 0x0b], 1, vec![vec![0xd2, 0, 0x0b]]),
        ],
    );
    let plan = build_linked_runtime_plan(&metadata).unwrap();
    let memory = plan.memory_bytes.unwrap();
    assert_eq!(memory.len(), 65536);
    assert_eq!(memory[1], 0xaa);
    assert_eq!(&memory[3..5], &[0xbb, 0xcc]);
    assert_eq!(plan.globals.len(), 2);
    assert_eq!(plan.globals[0].value_lo, 1);
    assert_eq!(plan.globals[1].value_lo, 9);
    assert_eq!(plan.tables[0].elements, vec![None, Some(1), None]);
    assert_eq!(plan.tables[1].elements, vec![Some(0)]);
    assert_eq!(plan.type_ids, vec![0]);
}

#[test]
fn plan_without_memory_and_without_data_has_no_memory() {
    let metadata = metadata(vec![function_type(&[], &[])], vec![function(0, 0)], vec![], None, vec![], vec![], vec![]);
    let plan = build_linked_runtime_plan(&metadata).unwrap();
    assert!(plan.memory_bytes.is_none());
    assert!(plan.tables.is_empty());
}

#[test]
fn plan_rejects_data_out_of_memory_range() {
    let metadata = metadata(
        vec![function_type(&[], &[])],
        vec![function(0, 0)],
        vec![],
        Some(memory(1)),
        vec![],
        vec![active_data(vec![0x41, 0xff, 0xff, 0x03, 0x0b], vec![1, 2])],
        vec![],
    );
    let err = build_linked_runtime_plan(&metadata).unwrap_err();
    assert_eq!(err.message(), "data[0] range 65535..65537 exceeds memory length 65536");
}

#[test]
fn plan_rejects_element_out_of_table_range() {
    let metadata = metadata(
        vec![function_type(&[], &[])],
        vec![function(0, 0)],
        vec![funcref_table(1)],
        None,
        vec![],
        vec![],
        vec![active_element(vec![0x41, 0x01, 0x0b], 0, vec![vec![0xd2, 0, 0x0b]])],
    );
    let err = build_linked_runtime_plan(&metadata).unwrap_err();
    assert_eq!(err.message(), "element[0] range 1..2 exceeds table length 1");
}

#[test]
fn plan_rejects_missing_start_function_and_bad_start_signature() {
    let mut m = metadata(vec![function_type(&[VALUE_TYPE_I32], &[])], vec![function(0, 0)], vec![], None, vec![], vec![], vec![]);
    m.start_function_index = Some(7);
    assert_eq!(
        validate_linked_runtime_metadata(&m).unwrap_err().message(),
        "linked module metadata has no local start function 7"
    );
    m.start_function_index = Some(0);
    assert_eq!(
        validate_linked_runtime_metadata(&m).unwrap_err().message(),
        "start functions must use the () -> () signature"
    );
    m.functions[0].type_index = 7;
    assert_eq!(
        validate_linked_runtime_metadata(&m).unwrap_err().message(),
        "linked module metadata is missing type 7"
    );
}

#[test]
fn plan_rejects_metadata_without_functions() {
    let m = metadata(vec![], vec![], vec![], None, vec![], vec![], vec![]);
    assert_eq!(
        build_linked_runtime_plan(&m).unwrap_err(),
        LinkedPlanError::NoFunctions
    );
}

#[test]
fn plan_rejects_global_initializer_count_mismatch() {
    let mut m = metadata(vec![function_type(&[], &[])], vec![function(0, 0)], vec![], None, vec![(VALUE_TYPE_I32, vec![0x41, 0, 0x0b])], vec![], vec![]);
    m.global_initializers.clear();
    assert_eq!(
        build_linked_runtime_plan(&m).unwrap_err().message(),
        "linked runtime metadata has 1 globals but 0 global initializers"
    );
}

#[test]
fn element_reference_forms() {
    let functions = vec![function(3, 0)];
    assert_eq!(evaluate_element_reference(0, 0, &[0xd0, 0x70, 0x0b], &functions), Ok(None));
    assert_eq!(evaluate_element_reference(0, 0, &[0xd2, 3, 0x0b], &functions), Ok(Some(3)));
    assert_eq!(
        evaluate_element_reference(2, 1, &[], &functions).unwrap_err().message(),
        "element[2].init[1] is empty"
    );
    assert_eq!(
        evaluate_element_reference(0, 0, &[0xd0, 0x70], &functions).unwrap_err().message(),
        "element[0].init[0] has an invalid ref.null encoding"
    );
    assert_eq!(
        evaluate_element_reference(0, 0, &[0xd2, 3, 0x01], &functions).unwrap_err().message(),
        "element[0].init[0] has trailing bytes"
    );
    assert_eq!(
        evaluate_element_reference(0, 4, &[0xd2, 4, 0x0b], &functions).unwrap_err().message(),
        "element[0].init[4] references missing local function 4"
    );
    assert_eq!(
        evaluate_element_reference(1, 0, &[0x41, 0, 0x0b], &functions).unwrap_err().message(),
        "element[1].init[0] uses an unsupported initializer opcode 0x41"
    );
    assert_eq!(
        evaluate_element_reference(1, 0, &[0xd2, 0x80], &functions).unwrap_err().message(),
        "element[1].init[0] ref.func index: malformed unsigned LEB128"
    );
}

#[test]
fn const_expressions_evaluate_each_instruction() {
    let none: Vec<LinkedGlobalValue> = Vec::new();
    assert_eq!(evaluate_const_expr(&[0x41, 0x7f, 0x0b], &[], &none, &[]), Ok((vec![0xffff_ffff], VALUE_TYPE_I32)));
    assert_eq!(evaluate_const_expr(&[0x42, 0x7f, 0x0b], &[], &none, &[]), Ok((vec![u64::MAX], VALUE_TYPE_I64)));
    assert_eq!(evaluate_const_expr(&[0x43, 0, 0, 0x80, 0x3f, 0x0b], &[], &none, &[]), Ok((vec![0x3f80_0000], 0x7d)));
    assert_eq!(
        evaluate_const_expr(&[0x44, 0, 0, 0, 0, 0, 0, 0xf0, 0x3f, 0x0b], &[], &none, &[]),
        Ok((vec![0x3ff0_0000_0000_0000], 0x7c))
    );
    assert_eq!(evaluate_const_expr(&[0xd0, 0x6f, 0x0b], &[], &none, &[]), Ok((vec![0], REF_TYPE_EXTERNREF)));
    let globals = vec![LinkedGlobalValue { value_lo: 5, value_hi: 6 }];
    let types = vec![AotGlobalTypeMetadata { val_type: 0x7b, mutable: false }];
    assert_eq!(evaluate_const_expr(&[0x23, 0, 0x0b], &types, &globals, &[]), Ok((vec![5, 6], 0x7b)));
    assert_eq!(evaluate_const_expr(&[0x23, 1, 0x0b], &types, &globals, &[]), Err(ConstExprError::UnknownGlobal(1)));
    assert_eq!(evaluate_const_expr(&[0xd2, 0, 0x0b], &[], &none, &[]), Err(ConstExprError::UnknownFunction(0)));
    assert_eq!(evaluate_const_expr(&[0x41, 0], &[], &none, &[]), Err(ConstExprError::MissingEnd));
    assert_eq!(evaluate_const_expr(&[], &[], &none, &[]), Err(ConstExprError::Empty));
    assert_eq!(evaluate_const_expr(&[0xff, 0x0b], &[], &none, &[]), Err(ConstExprError::InvalidOpcode(0xff)));
}
