use razero_compiler::aot::{AotFunctionTypeMetadata, AotModuleContextMetadata};
use razero_compiler::call_engine::{
    call_start, check_module_exit_code, finish_memory_grow, finish_table_grow, memory_grow_step,
    ref_func, refresh_local_memory_definition, table_grow_request, CallEngineError, CallStart,
    MemoryGrowStep, RuntimeTrap, TableGrowRequest,
};
use razero_compiler::const_expr::LinkedGlobalValue;
use razero_compiler::hostmodule::{build_host_module_opaque, host_func_slot_offset};
use razero_compiler::module_engine::{
    imported_function_target, new_compiler_function, put_local_memory, resolve_imported_memory, set_global_value,
    setup_opaque,
    write_imported_function, ImportedFunction, OpaqueState, SharedFunctionAddresses,
};

/// The address compiled code would call for `memmove`.
const MEMMOVE: usize = 0x7000_1000;

#[test]
fn calls_need_their_parameters() {
    assert_eq!(
        call_start(3, 2, 0, 0, false, false),
        Err(CallEngineError::InvalidParamCount { expected: 3, actual: 2 })
    );
}

#[test]
fn calls_with_a_preamble_enter_compiled_code() {
    assert_eq!(call_start(1, 1, 0x100, 0x200, false, false), Ok(CallStart::EnterCompiled));
    assert_eq!(
        call_start(1, 1, 0x100, 0, false, false),
        Err(CallEngineError::UnsupportedExit {
            exit_code: 0,
            detail: "compiled function executable is not configured".to_string(),
        })
    );
}

#[test]
fn host_function_calls_start_with_a_host_call() {
    assert_eq!(call_start(0, 0, 0, 0, true, false), Ok(CallStart::RunLoop { host_call: true }));
    assert_eq!(call_start(0, 0, 0, 0, true, true), Ok(CallStart::RunLoop { host_call: false }));
    assert_eq!(call_start(0, 0, 0, 0, false, false), Ok(CallStart::RunLoop { host_call: false }));
}

#[test]
fn memory_grow_reads_a_saturated_delta() {
    assert_eq!(
        memory_grow_step(&[], true, true, 2),
        Err(CallEngineError::InvalidParamCount { expected: 1, actual: 0 })
    );
    assert_eq!(
        memory_grow_step(&[1], false, true, 2),
        Err(CallEngineError::UnsupportedExit {
            exit_code: 2,
            detail: "memory.grow requires a module context".to_string(),
        })
    );
    assert_eq!(memory_grow_step(&[1], true, false, 2), Ok(MemoryGrowStep::NoMemory));
    assert_eq!(memory_grow_step(&[3], true, true, 2), Ok(MemoryGrowStep::Grow { delta: 3 }));
    assert_eq!(memory_grow_step(&[1 << 40], true, true, 2), Ok(MemoryGrowStep::Grow { delta: u32::MAX }));
}

#[test]
fn memory_grow_returns_the_previous_size_or_all_ones() {
    let mut stack = [5u64, 9];
    finish_memory_grow(&mut stack, Some(1));
    assert_eq!(stack, [1, 9]);
    finish_memory_grow(&mut stack, None);
    assert_eq!(stack, [u32::MAX as u64, 9]);
}

#[test]
fn table_grow_reads_index_delta_and_reference() {
    assert_eq!(
        table_grow_request(&[0, 1], true, 18),
        Err(CallEngineError::InvalidParamCount { expected: 3, actual: 2 })
    );
    assert_eq!(
        table_grow_request(&[0, 1, 2], false, 18),
        Err(CallEngineError::UnsupportedExit {
            exit_code: 18,
            detail: "table.grow requires a module context".to_string(),
        })
    );
    assert_eq!(
        table_grow_request(&[1, 1 << 33, u64::MAX], true, 18),
        Ok(TableGrowRequest { table_index: 1, delta: u32::MAX, initial: None })
    );
    assert_eq!(
        table_grow_request(&[0, 4, 7], true, 18),
        Ok(TableGrowRequest { table_index: 0, delta: 4, initial: Some(7) })
    );
}

#[test]
fn table_grow_reports_a_missing_table() {
    let mut stack = [0u64, 4, 7];
    assert_eq!(
        finish_table_grow(&mut stack, None),
        Err(CallEngineError::Runtime(RuntimeTrap::InvalidTableAccess))
    );
    assert_eq!(stack, [0, 4, 7]);
    assert_eq!(finish_table_grow(&mut stack, Some(10)), Ok(()));
    assert_eq!(stack, [10, 4, 7]);
}

#[test]
fn ref_func_saturates_its_slot() {
    let mut empty: [u64; 0] = [];
    assert_eq!(ref_func(&mut empty), Err(CallEngineError::InvalidParamCount { expected: 1, actual: 0 }));
    let mut stack = [u64::MAX, 1];
    assert_eq!(ref_func(&mut stack), Ok(()));
    assert_eq!(stack, [u32::MAX as u64, 1]);
}

#[test]
fn module_exit_codes_stop_the_call() {
    assert_eq!(check_module_exit_code(Some(3)), Err(CallEngineError::ModuleExit(3)));
    assert_eq!(check_module_exit_code(None), Ok(()));
}

#[test]
fn memory_definitions_are_refreshed_in_place() {
    let mut opaque = vec![0xffu8; 24];
    refresh_local_memory_definition(&mut opaque, 8, Some((0x1122, 0x10000)));
    assert_eq!(&opaque[8..16], &0x1122u64.to_le_bytes());
    assert_eq!(&opaque[16..24], &0x10000u64.to_le_bytes());
    refresh_local_memory_definition(&mut opaque, 8, None);
    assert_eq!(&opaque[8..24], &[0u8; 16]);
    let before = opaque.clone();
    refresh_local_memory_definition(&mut opaque, -1, Some((1, 1)));
    assert_eq!(opaque, before);
}

#[test]
fn local_memory_is_written_only_when_present() {
    let mut bytes = vec![0u8; 16];
    put_local_memory(&mut bytes, 0, None);
    assert_eq!(bytes, vec![0u8; 16]);
    put_local_memory(&mut bytes, 0, Some((7, 8)));
    assert_eq!(&bytes[..8], &7u64.to_le_bytes());
    assert_eq!(&bytes[8..], &8u64.to_le_bytes());
}

fn context() -> AotModuleContextMetadata {
    AotModuleContextMetadata {
        total_size: 120,
        module_instance_offset: 0,
        local_memory_begin: 8,
        imported_memory_begin: -1,
        imported_functions_begin: -1,
        globals_begin: 24,
        type_ids_1st_element: 56,
        tables_begin: 64,
        before_listener_trampolines_1st_element: -1,
        after_listener_trampolines_1st_element: -1,
        data_instances_1st_element: 80,
        element_instances_1st_element: 88,
    }
}

fn word(bytes: &[u8], at: usize) -> u64 {
    u64::from_le_bytes(bytes[at..at + 8].try_into().unwrap())
}

#[test]
fn setup_opaque_writes_each_region() {
    let state = OpaqueState {
        module_instance: 0xaaaa,
        memory: Some((0xbbbb, 65536)),
        globals: vec![LinkedGlobalValue { value_lo: 1, value_hi: 2 }, LinkedGlobalValue { value_lo: 3, value_hi: 4 }],
        type_ids: Some(0xcccc),
        tables: vec![0xdddd, 0xeeee],
        data_instances: Some(0x1234),
        element_instances: None,
    };
    let mut bytes = vec![0u8; 120];
    setup_opaque(&mut bytes, &context(), &state);
    assert_eq!(word(&bytes, 0), 0xaaaa);
    assert_eq!(word(&bytes, 8), 0xbbbb);
    assert_eq!(word(&bytes, 16), 65536);
    assert_eq!([word(&bytes, 24), word(&bytes, 32), word(&bytes, 40), word(&bytes, 48)], [1, 2, 3, 4]);
    assert_eq!(word(&bytes, 56), 0xcccc);
    assert_eq!([word(&bytes, 64), word(&bytes, 72)], [0xdddd, 0xeeee]);
    assert_eq!(word(&bytes, 80), 0x1234);
    assert_eq!(word(&bytes, 88), 0);
}

#[test]
fn setup_opaque_leaves_an_empty_context_alone() {
    let mut ctx = context();
    ctx.total_size = 0;
    let state = OpaqueState {
        module_instance: 1,
        memory: None,
        globals: vec![],
        type_ids: None,
        tables: vec![],
        data_instances: None,
        element_instances: None,
    };
    let mut bytes = vec![7u8; 16];
    setup_opaque(&mut bytes, &ctx, &state);
    assert_eq!(bytes, vec![7u8; 16]);
}

#[test]
fn host_module_opaque_holds_the_module_and_each_function() {
    let opaque = build_host_module_opaque(0x5000, &[(0x10, 0x20), (0x30, 0x40)]);
    assert_eq!(opaque.len(), 32 + 2 * 16);
    let w = std::mem::size_of::<usize>();
    let read = |at: usize| usize::from_le_bytes(opaque[at..at + w].try_into().unwrap());
    assert_eq!(read(0), 0x5000);
    assert_eq!(read(host_func_slot_offset(0)), 0x10);
    assert_eq!(read(host_func_slot_offset(0) + w), 0x20);
    assert_eq!(read(host_func_slot_offset(1)), 0x30);
    assert_eq!(read(host_func_slot_offset(1) + w), 0x40);
    assert_eq!(host_func_slot_offset(1), 48);
    assert!(opaque[w..32].iter().all(|b| *b == 0));
}


fn void_type() -> Option<AotFunctionTypeMetadata> {
    Some(AotFunctionTypeMetadata::default())
}

fn i64_to_i64() -> Option<AotFunctionTypeMetadata> {
    Some(AotFunctionTypeMetadata { params: vec![0x7e], results: vec![0x7e], param_num_in_u64: 1, result_num_in_u64: 1 })
}

fn host_import() -> ImportedFunction {
    ImportedFunction {
        executable_ptr: 0x4010,
        preamble_executable_ptr: 0,
        module_context_ptr: 0x5000,
        type_id: 0,
        has_host_func: true,
    }
}

#[test]
fn local_function_initializes_execution_context_fuel_when_enabled() {
    let shared = SharedFunctionAddresses::default();
    let handle = new_compiler_function(0, 0, &[], void_type(), Some(0x1010), None, false, 0x9000, &shared, true, 7, MEMMOVE);
    assert_eq!(handle.exec_ctx.fuel, 7);
}

#[test]
fn imported_function_does_not_receive_parent_fuel() {
    let shared = SharedFunctionAddresses::default();
    let handle = new_compiler_function(0, 1, &[host_import()], i64_to_i64(), None, None, false, 0x9000, &shared, true, 42, MEMMOVE);
    assert_eq!(handle.exec_ctx.fuel, 0);
}

#[test]
fn local_function_fuel_zero_when_disabled() {
    let shared = SharedFunctionAddresses::default();
    let handle = new_compiler_function(0, 0, &[], void_type(), Some(0x1010), None, false, 0x9000, &shared, false, 999, MEMMOVE);
    assert_eq!(handle.exec_ctx.fuel, 0);
}

#[test]
fn local_functions_get_their_code_context_and_trampolines() {
    let shared = SharedFunctionAddresses {
        memory_grow: Some(0x100),
        stack_grow: Some(0x110),
        check_module_exit_code: None,
        table_grow: Some(0x130),
        ref_func: Some(0x140),
        memory_wait32: None,
        memory_wait64: None,
        memory_notify: Some(0x170),
    };
    let handle = new_compiler_function(2, 1, &[host_import()], i64_to_i64(), Some(0x1030), Some(0x2000), false, 0x9000, &shared, false, 0, MEMMOVE);
    assert_eq!((handle.executable_ptr, handle.preamble_executable_ptr, handle.module_context_ptr), (0x1030, 0x2000, 0x9000));
    assert_eq!((handle.required_params, handle.number_of_results, handle.size_of_param_result_slice), (1, 1, 1));
    assert!(!handle.has_host_func);
    assert_eq!(handle.exec_ctx.memory_grow_trampoline_address, 0x100);
    assert_eq!(handle.exec_ctx.check_module_exit_code_trampoline_address, 0);
    assert_eq!(handle.exec_ctx.memory_notify_trampoline_address, 0x170);
    assert_eq!(handle.exec_ctx.memmove_address, MEMMOVE);
    let imported = new_compiler_function(0, 1, &[host_import()], i64_to_i64(), None, None, false, 0x9000, &shared, false, 0, MEMMOVE);
    assert_eq!((imported.executable_ptr, imported.module_context_ptr), (0x4010, 0x5000));
    assert!(imported.has_host_func);
    assert_eq!(imported.exec_ctx.memory_grow_trampoline_address, 0);
}

#[test]
fn resolve_imported_function_writes_function_instance_layout() {
    // The exporting module's first local function sits 32 bytes into its
    // executable; the importer knows the import's type as type id 9.
    let imported_executable = 0x7000usize;
    let imported_opaque = 0x8000usize;
    let target = imported_function_target(0, &[], Some(imported_executable + 32), None, imported_opaque, Some(9), false);
    let (exec_off, ctx_off, ty_off) = (8usize, 16usize, 24usize);
    let mut opaque = vec![0u8; 32];
    write_imported_function(&mut opaque, exec_off, ctx_off, ty_off, target);
    let word = |at: usize| u64::from_le_bytes(opaque[at..at + 8].try_into().unwrap());
    assert_eq!(word(exec_off), (imported_executable + 32) as u64);
    assert_eq!(word(ctx_off), imported_opaque as u64);
    assert_eq!(word(ty_off), 9);
}

#[test]
fn imports_of_imports_reuse_their_resolution() {
    let resolution = host_import();
    assert_eq!(imported_function_target(0, &[resolution], Some(1), Some(2), 3, Some(4), false), resolution);
    let local = imported_function_target(1, &[resolution], None, None, 3, None, true);
    assert_eq!(local, ImportedFunction { executable_ptr: 0, preamble_executable_ptr: 0, module_context_ptr: 3, type_id: 0, has_host_func: true });
}

#[test]
fn imported_memories_are_written_when_present() {
    let mut opaque = vec![0u8; 24];
    resolve_imported_memory(&mut opaque, 8, Some((0xabc, 0xdef)));
    assert_eq!(u64::from_le_bytes(opaque[8..16].try_into().unwrap()), 0xabc);
    assert_eq!(u64::from_le_bytes(opaque[16..24].try_into().unwrap()), 0xdef);
    let before = opaque.clone();
    resolve_imported_memory(&mut opaque, -1, Some((1, 2)));
    resolve_imported_memory(&mut opaque, 8, None);
    assert_eq!(opaque, before);
}

#[test]
fn set_global_value_writes_the_global_slot() {
    // Two globals from offset 8: the second's slot is at 24.
    let mut opaque = vec![0u8; 48];
    set_global_value(&mut opaque, 8, 2, 1, 0x0102_0304_0506_0708, 9);
    let word = |at: usize| u64::from_le_bytes(opaque[at..at + 8].try_into().unwrap());
    assert_eq!(word(24), 0x0102_0304_0506_0708);
    assert_eq!(word(32), 9);
    assert_eq!(word(8), 0);
    assert_eq!(word(40), 0);
}

#[test]
fn set_global_value_ignores_missing_globals_and_regions() {
    let mut opaque = vec![0u8; 48];
    set_global_value(&mut opaque, 8, 1, 1, 7, 7);
    assert_eq!(opaque, vec![0u8; 48]);
    set_global_value(&mut opaque, -1, 2, 0, 7, 7);
    assert_eq!(opaque, vec![0u8; 48]);
}
