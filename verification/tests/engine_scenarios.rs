use razero_compiler::aot::{
    AotCompiledMetadata, AotFunctionMetadata, AotFunctionTypeMetadata, AotModuleContextMetadata, AotTarget,
    AotTargetArchitecture, AotTargetOperatingSystem, VALUE_TYPE_I32, VALUE_TYPE_V128,
};
use razero_compiler::call_engine::{
    check_module_exit_code, host_call_check, CallStack, exit_action, finish_memory_grow, finish_table_grow,
    memory_grow_step, ref_func, refresh_local_memory_definition, table_grow_request,
    CallEngineError, ExitAction, ExitKind, MemoryGrowStep, RuntimeTrap, TableGrowRequest,
    UnsupportedExit, CALL_STACK_CEILING,
};
use razero_compiler::code_map::{ExecutableRange, SortedCompiledModules};
use razero_compiler::link_objects::{
    layout_module_functions, layout_shared_functions, shared_function_addresses, SharedFunctionCode,
};
use razero_compiler::const_expr::LinkedGlobalValue;
use razero_compiler::hostmodule::{
    build_host_module_opaque, host_func_ref_words, host_func_slot_offset, host_module_address,
};
use razero_compiler::linker::{native_packaging_target, NativeLinkModule};
use razero_compiler::module_engine::{setup_opaque, OpaqueState};
use razero_compiler::native_link::plan_native_executable;

/// The address compiled code would call for `memmove`.
const MEMMOVE: usize = 0x7000_1000;

#[test]
fn aligned_stack_top_is_16_byte_aligned_on_a_new_call_stack() {
    let call_stack = CallStack::new(3, MEMMOVE);
    assert_eq!(call_stack.stack.len(), 10_240);
    assert_eq!(call_stack.stack_top & 15, 0);
    let bottom = call_stack.stack.as_ptr() as usize;
    assert!(bottom <= call_stack.stack_top && call_stack.stack_top < bottom + call_stack.stack.len());
    assert!(call_stack.stack_top + 16 > bottom + call_stack.stack.len() - 1);
}

#[test]
fn call_engine_init_sets_bottom_pointer() {
    let call_stack = CallStack::new(0, MEMMOVE);
    assert_eq!(call_stack.stack_top & 15, 0);
    assert_eq!(call_stack.exec_ctx.stack_bottom_ptr, call_stack.stack.as_ptr() as usize);
    assert_eq!(call_stack.exec_ctx.memmove_address, MEMMOVE);
}

#[test]
fn grow_stack_copies_active_window() {
    let mut call_stack = CallStack::new(0, MEMMOVE);
    call_stack.stack = (0..32).collect();
    call_stack.stack_top = call_stack.stack.as_ptr() as usize + 15;
    call_stack.exec_ctx.stack_grow_required_size = 160;
    call_stack.exec_ctx.stack_pointer_before_go_call = call_stack.stack.as_ptr() as usize + 10;
    call_stack.exec_ctx.frame_pointer_before_go_call = call_stack.stack.as_ptr() as usize + 14;

    let (new_sp, new_fp) = call_stack.grow_stack().unwrap();
    assert_eq!(call_stack.stack.len(), 160 + 32 * 2 + 16);
    assert_eq!(call_stack.exec_ctx.stack_bottom_ptr, call_stack.stack.as_ptr() as usize);
    assert_eq!(
        &call_stack.stack[(new_sp - call_stack.stack.as_ptr() as usize)..][..5],
        &[10, 11, 12, 13, 14]
    );
    assert_eq!(new_fp - new_sp, 4);
    assert_eq!(call_stack.stack_top % 16, 0);
}

#[test]
fn grow_stack_rejects_ceiling_overflow() {
    let mut call_stack = CallStack::new(0, MEMMOVE);
    call_stack.stack = vec![0; CALL_STACK_CEILING + 1];
    assert_eq!(call_stack.grow_stack(), Err(RuntimeTrap::StackOverflow));
    assert_eq!(call_stack.stack.len(), CALL_STACK_CEILING + 1);
}

#[test]
fn clone_stack_keeps_the_stack_it_copies() {
    let mut call_stack = CallStack::new(0, MEMMOVE);
    call_stack.stack = (0..32).collect();
    call_stack.stack_top = call_stack.stack.as_ptr() as usize + 20;
    call_stack.exec_ctx.stack_pointer_before_go_call = call_stack.stack.as_ptr() as usize + 16;
    call_stack.exec_ctx.frame_pointer_before_go_call = call_stack.stack.as_ptr() as usize + 18;
    let (new_sp, new_fp, new_top, new_stack) = call_stack.clone_stack(64);
    let new_bottom = new_stack.as_ptr() as usize;
    assert_eq!(new_top & 15, 0);
    assert_eq!(new_top - new_sp, 4);
    assert_eq!(new_top - new_fp, 2);
    assert_eq!(&new_stack[(new_sp - new_bottom)..][..4], &[16, 17, 18, 19]);
    assert_eq!(call_stack.stack.len(), 32);
}

#[test]
fn exit_code_loop_maps_traps_to_runtime_errors() {
    assert_eq!(exit_action(ExitKind::FuelExhausted, 0, 0), ExitAction::Trap(RuntimeTrap::FuelExhausted));
    assert_eq!(
        exit_action(ExitKind::MemoryOutOfBounds, 0, 0),
        ExitAction::Trap(RuntimeTrap::OutOfBoundsMemoryAccess)
    );
    assert_eq!(exit_action(ExitKind::MemoryFault, 0, 0), ExitAction::Trap(RuntimeTrap::MemoryFault));
}

#[test]
fn unsupported_runtime_builtins_remain_explicit() {
    match exit_action(ExitKind::MemoryWait32, 0, 0) {
        ExitAction::Unsupported(exit) => {
            assert_eq!(exit, UnsupportedExit::MemoryWait);
            assert_eq!(exit.detail(), "memory.wait requires runtime integration");
        }
        other => panic!("unexpected action: {other:?}"),
    }
}

#[test]
fn exit_code_loop_grows_memory_and_refreshes_opaque() {
    // A memory of one page that may grow to three; the module context holds
    // its definition at offset 8.
    let local_memory_offset = 8usize;
    let mut opaque = vec![0u8; 32];
    refresh_local_memory_definition(&mut opaque, local_memory_offset as i32, Some((0x7000, 65_536)));
    let before_len = u64::from_le_bytes(opaque[local_memory_offset + 8..local_memory_offset + 16].try_into().unwrap());
    assert_eq!(before_len, u64::from(65_536u32));

    let mut stack = [1u64];
    assert_eq!(exit_action(ExitKind::GrowMemory, 0, 0), ExitAction::GrowMemory);
    let delta = match memory_grow_step(&stack, true, true, 0).unwrap() {
        MemoryGrowStep::Grow { delta } => delta,
        MemoryGrowStep::NoMemory => panic!("the module has a memory"),
    };
    assert_eq!(delta, 1);
    let previous_pages = 1u32;
    let pages = previous_pages + delta;
    finish_memory_grow(&mut stack, Some(previous_pages));
    refresh_local_memory_definition(&mut opaque, local_memory_offset as i32, Some((0x7000, u64::from(pages) * 65_536)));
    assert_eq!(stack, [1]);
    assert_eq!(pages, 2);
    let after_len = u64::from_le_bytes(opaque[local_memory_offset + 8..local_memory_offset + 16].try_into().unwrap());
    assert_eq!(after_len, u64::from(131_072u32));
}

#[test]
fn exit_code_loop_handles_table_grow_and_ref_func() {
    let mut table_stack = [0u64, 2, 7];
    assert_eq!(exit_action(ExitKind::TableGrow, 0, 0), ExitAction::TableGrow);
    let request = table_grow_request(&table_stack, true, 0).unwrap();
    assert_eq!(request, TableGrowRequest { table_index: 0, delta: 2, initial: Some(7) });
    // The table was empty: it grows to two elements, both the initial reference.
    let mut elements: Vec<Option<u64>> = Vec::new();
    let previous_len = elements.len() as u32;
    elements.extend(std::iter::repeat(request.initial).take(request.delta as usize));
    finish_table_grow(&mut table_stack, Some(previous_len)).unwrap();
    assert_eq!(&table_stack[..1], &[0]);
    assert_eq!(elements, vec![Some(7), Some(7)]);

    let mut ref_stack = [5u64];
    assert_eq!(exit_action(ExitKind::RefFunc, 0, 0), ExitAction::RefFunc);
    ref_func(&mut ref_stack).unwrap();
    assert_eq!(ref_stack, [5]);
}

#[test]
fn exit_code_loop_reports_closed_module() {
    assert_eq!(
        exit_action(ExitKind::CheckModuleExitCode, 0, 0),
        ExitAction::CheckModuleExitCode { resume_native: false }
    );
    match check_module_exit_code(Some(7)) {
        Err(CallEngineError::ModuleExit(code)) => assert_eq!(code, 7),
        other => panic!("unexpected result: {other:?}"),
    }
}

#[test]
fn compiled_module_lookup_by_address_follows_sorted_ranges() {
    let mut modules = SortedCompiledModules::new();
    let first = ExecutableRange { base: 0x9000, len: 32, module_id: [1; 32] };
    let second = ExecutableRange { base: 0x4000, len: 32, module_id: [2; 32] };
    modules.add(first);
    modules.add(second);
    let target = if first.base < second.base { first } else { second };
    let addr = target.base + 8;
    assert_eq!(modules.of_addr(addr).unwrap().module_id, target.module_id);
}

#[test]
fn setup_opaque_writes_memory_globals_tables_and_instances() {
    let ctx = AotModuleContextMetadata {
        total_size: 80,
        module_instance_offset: 0,
        local_memory_begin: 8,
        imported_memory_begin: -1,
        imported_functions_begin: -1,
        globals_begin: 32,
        type_ids_1st_element: 48,
        tables_begin: 56,
        before_listener_trampolines_1st_element: -1,
        after_listener_trampolines_1st_element: -1,
        data_instances_1st_element: 64,
        element_instances_1st_element: 72,
    };
    let memory = vec![0u8; 32];
    let state = OpaqueState {
        module_instance: 0x1000,
        memory: Some((memory.as_ptr() as u64, memory.len() as u64)),
        globals: vec![LinkedGlobalValue { value_lo: 7, value_hi: 0 }],
        type_ids: Some(0x2000),
        tables: vec![0x3000],
        data_instances: Some(0x4000),
        element_instances: Some(0x5000),
    };
    let mut bytes = vec![0u8; 80];
    setup_opaque(&mut bytes, &ctx, &state);
    let local_mem = ctx.local_memory_begin as usize;
    assert_ne!(u64::from_le_bytes(bytes[local_mem..local_mem + 8].try_into().unwrap()), 0);
    assert_eq!(u64::from_le_bytes(bytes[local_mem + 8..local_mem + 16].try_into().unwrap()), 32);
    let global_offset = ctx.globals_begin as usize;
    assert_eq!(u64::from_le_bytes(bytes[global_offset..global_offset + 8].try_into().unwrap()), 7);
    let table_offset = ctx.tables_begin as usize;
    assert_ne!(u64::from_le_bytes(bytes[table_offset..table_offset + 8].try_into().unwrap()), 0);
}

#[test]
fn host_module_opaque_round_trips_module_and_host_funcs() {
    let module_addr = 0xdead_0000usize;
    let host_func = (0x1111usize, 0x2222usize);
    let opaque = build_host_module_opaque(module_addr, &[host_func]);
    assert_eq!(host_module_address(&opaque), module_addr);
    assert_eq!(host_func_ref_words(&opaque, 0), host_func);
    let w = std::mem::size_of::<usize>();
    let read = |at: usize| usize::from_le_bytes(opaque[at..at + w].try_into().unwrap());
    let slot = host_func_slot_offset(0);
    assert_eq!((read(slot), read(slot + w)), host_func);
}

fn cabi_metadata(os: AotTargetOperatingSystem, arch: AotTargetArchitecture, results: &[u8], result_slots: usize) -> AotCompiledMetadata {
    AotCompiledMetadata {
        target: AotTarget { architecture: arch, operating_system: os },
        functions: vec![AotFunctionMetadata {
            local_function_index: 0,
            wasm_function_index: 0,
            type_index: 0,
            executable_offset: 0,
            executable_len: 4,
        }],
        types: vec![AotFunctionTypeMetadata {
            params: vec![VALUE_TYPE_I32],
            results: results.to_vec(),
            param_num_in_u64: 1,
            result_num_in_u64: result_slots,
        }],
        ..AotCompiledMetadata::default()
    }
}

#[test]
fn link_native_executable_rejects_unsupported_targets_before_linking() {
    let metadata = cabi_metadata(AotTargetOperatingSystem::Windows, AotTargetArchitecture::Aarch64, &[VALUE_TYPE_I32], 1);
    let err = plan_native_executable(
        &[NativeLinkModule::new("guest".to_string(), Vec::new(), Vec::new())],
        vec![Ok(metadata)],
        native_packaging_target(true, AotTargetArchitecture::X86_64),
    )
    .err()
    .unwrap();
    assert_eq!(err.message(), "module 'guest' targets Windows, only linux is supported");
}

#[test]
fn link_native_executable_rejects_empty_module_list() {
    let err = plan_native_executable(&[], Vec::new(), native_packaging_target(true, AotTargetArchitecture::X86_64))
        .err()
        .unwrap();
    assert_eq!(err.message(), "native executable packaging requires at least one relocatable object");
}

#[test]
fn link_native_executable_rejects_module_without_cabi_exports() {
    let metadata = cabi_metadata(AotTargetOperatingSystem::Linux, AotTargetArchitecture::X86_64, &[VALUE_TYPE_V128], 2);
    let err = plan_native_executable(
        &[NativeLinkModule::new("guest".to_string(), Vec::new(), Vec::new())],
        vec![Ok(metadata)],
        native_packaging_target(true, AotTargetArchitecture::X86_64),
    )
    .err()
    .unwrap();
    assert_eq!(err.message(), "module 'guest' does not expose any C ABI compatible functions");
}

#[test]
fn exit_code_loop_grows_stack_before_returning() {
    let mut call_stack = CallStack::new(0, MEMMOVE);
    call_stack.stack = vec![0; 32];
    call_stack.stack_top = call_stack.stack.as_ptr() as usize + 15;
    call_stack.exec_ctx.stack_pointer_before_go_call = call_stack.stack.as_ptr() as usize + 8;
    call_stack.exec_ctx.frame_pointer_before_go_call = call_stack.stack.as_ptr() as usize + 12;
    call_stack.exec_ctx.stack_grow_required_size = 64;

    // The exit asks for a bigger stack; the engine grows it and goes on.
    assert_eq!(
        exit_action(ExitKind::GrowStack, call_stack.exec_ctx.stack_pointer_before_go_call, 0),
        ExitAction::GrowStack
    );
    call_stack.grow_stack().unwrap();
    assert!(call_stack.stack.len() > 32);
    assert_eq!(call_stack.stack.len(), 2 * 32 + 64 + 16);
    assert_eq!(call_stack.exec_ctx.stack_bottom_ptr, call_stack.stack.as_ptr() as usize);
    assert_eq!(call_stack.stack_top % 16, 0);
}

#[test]
fn stacks_can_grow_while_their_new_length_fits() {
    let mut call_stack = CallStack::new(0, MEMMOVE);
    assert!(call_stack.can_grow_stack());
    call_stack.stack = vec![0; 32];
    assert!(call_stack.can_grow_stack());
    call_stack.exec_ctx.stack_grow_required_size = usize::MAX;
    assert!(!call_stack.can_grow_stack());
    call_stack.stack = vec![0; CALL_STACK_CEILING + 1];
    assert!(call_stack.can_grow_stack());
}

#[test]
fn a_window_outside_the_stack_is_not_copied() {
    let mut call_stack = CallStack::new(0, MEMMOVE);
    call_stack.stack = (1..=32).collect();
    let bottom = call_stack.stack.as_ptr() as usize;
    call_stack.stack_top = bottom + 40;
    call_stack.exec_ctx.stack_pointer_before_go_call = bottom + 8;
    call_stack.exec_ctx.frame_pointer_before_go_call = bottom + 12;
    let (new_sp, new_fp) = call_stack.grow_stack().unwrap();
    assert_eq!(call_stack.stack_top - new_sp, 32);
    assert_eq!(call_stack.stack_top - new_fp, 28);
    assert!(call_stack.stack.iter().all(|b| *b == 0));
}

#[test]
fn shared_functions_are_16_byte_aligned() {
    let code = SharedFunctionCode {
        memory_grow: vec![0xc3; 5],
        table_grow: vec![0x90; 17],
        check_module_exit_code: vec![0xcc; 1],
        ref_func: vec![0x90; 16],
        stack_grow: vec![0xc3; 33],
        memory_wait32: vec![0x90; 2],
        memory_wait64: vec![0x90; 3],
        memory_notify: vec![0xc3; 4],
    };
    let (text, offsets) = layout_shared_functions(code);
    // The shared text is mapped page-aligned.
    let base = 0x7f00_0000usize;
    let shared = shared_function_addresses(base, text.len(), &offsets);
    let ptrs = [
        shared.memory_grow,
        shared.check_module_exit_code,
        shared.stack_grow,
        shared.table_grow,
        shared.ref_func,
        shared.memory_wait32,
        shared.memory_wait64,
        shared.memory_notify,
    ];
    assert!(ptrs.iter().all(|p| p.is_some()));
    for ptr in ptrs.into_iter().flatten() {
        assert_eq!(ptr & 15, 0);
    }
    assert_eq!(offsets.memory_grow, 0);
    assert_eq!(offsets.table_grow, 16);
    assert_eq!(offsets.check_module_exit_code, 48);
    assert_eq!(&text[48..49], &[0xcc]);
    assert_eq!(offsets.memory_notify + 4, text.len());
}

#[test]
fn shared_functions_past_the_text_have_no_address() {
    let code = SharedFunctionCode {
        memory_grow: vec![0xc3; 5],
        table_grow: vec![],
        check_module_exit_code: vec![],
        ref_func: vec![],
        stack_grow: vec![],
        memory_wait32: vec![],
        memory_wait64: vec![],
        memory_notify: vec![],
    };
    let (text, offsets) = layout_shared_functions(code);
    let shared = shared_function_addresses(0x1000, text.len(), &offsets);
    assert_eq!(shared.memory_grow, Some(0x1000));
    assert_eq!(shared.table_grow, None);
    assert_eq!(shared.memory_notify, None);
}

#[test]
fn module_functions_follow_the_imports_at_aligned_offsets() {
    let codes = vec![vec![0xc3; 3], vec![0x90; 20], vec![0xcc; 1]];
    let (text, offsets, functions) = layout_module_functions(2, &codes, &[1, 0, 1]);
    assert_eq!(offsets, vec![0, 16, 48]);
    assert_eq!(text.len(), 49);
    assert_eq!(&text[16..36], &[0x90; 20]);
    assert_eq!(&text[3..16], &[0; 13]);
    assert_eq!(functions[1].wasm_function_index, 3);
    assert_eq!(functions[1].local_function_index, 1);
    assert_eq!(functions[1].type_index, 0);
    assert_eq!(functions[1].executable_offset, 16);
    assert_eq!(functions[1].executable_len, 20);
    assert_eq!(functions[2].wasm_function_index, 4);
}

#[test]
fn module_functions_without_a_type_index_get_type_zero() {
    let codes = vec![vec![0xc3; 2], vec![0x90; 4]];
    let (_, offsets, functions) = layout_module_functions(0, &codes, &[5]);
    assert_eq!(offsets, vec![0, 16]);
    assert_eq!(functions[0].type_index, 5);
    assert_eq!(functions[1].type_index, 0);
    assert_eq!(functions[1].wasm_function_index, 1);
}

#[test]
fn host_calls_need_their_parameters_and_a_host_function() {
    assert_eq!(host_call_check(2, 1, true), Err(CallEngineError::Host("need 2 params, but stack size is 1".to_string())));
    assert_eq!(host_call_check(1, 1, false), Err(CallEngineError::Host("host function not configured".to_string())));
    assert_eq!(host_call_check(1, 3, true), Ok(()));
}
