use razero_compiler::call_engine::{
    base_exit_code, exit_action, go_function_index_from_exit_code, raw_reference, ref_func_result,
    resets_exit_code, saturating_u32, ExitAction, ExitKind, RuntimeTrap, UnsupportedExit,
};

#[test]
fn exit_codes_split_into_base_and_function_index() {
    let raw = (7 << 8) | 6;
    assert_eq!(base_exit_code(raw), 6);
    assert_eq!(go_function_index_from_exit_code(raw), 7);
    assert_eq!(base_exit_code(0xffff_ffff), 0xff);
    assert_eq!(go_function_index_from_exit_code(0xffff_ffff), 0x00ff_ffff);
}

#[test]
fn a_completed_call_returns_its_results() {
    assert_eq!(exit_action(ExitKind::Completed, 0, 0), ExitAction::ReturnResults);
    assert!(!resets_exit_code(ExitAction::ReturnResults));
}

#[test]
fn host_calls_reenter_native_code_only_when_one_is_in_flight() {
    for kind in [
        ExitKind::CallGoFunction,
        ExitKind::CallGoModuleFunction,
        ExitKind::CallGoFunctionWithListener,
        ExitKind::CallGoModuleFunctionWithListener,
    ] {
        assert_eq!(exit_action(kind, 0x1000, 0x2000), ExitAction::InvokeCompiledHostImport);
        assert_eq!(exit_action(kind, 0x1000, 0), ExitAction::InvokeHost);
        assert_eq!(exit_action(kind, 0, 0x2000), ExitAction::InvokeHost);
    }
    assert!(resets_exit_code(ExitAction::InvokeHost));
    assert!(resets_exit_code(ExitAction::InvokeCompiledHostImport));
}

#[test]
fn module_exit_checks_resume_native_code_in_a_host_call() {
    assert_eq!(
        exit_action(ExitKind::CheckModuleExitCode, 8, 16),
        ExitAction::CheckModuleExitCode { resume_native: true }
    );
    assert_eq!(
        exit_action(ExitKind::CheckModuleExitCode, 0, 16),
        ExitAction::CheckModuleExitCode { resume_native: false }
    );
}

#[test]
fn traps_map_to_runtime_errors() {
    let cases = [
        (ExitKind::Unreachable, RuntimeTrap::Unreachable),
        (ExitKind::MemoryOutOfBounds, RuntimeTrap::OutOfBoundsMemoryAccess),
        (ExitKind::MemoryFault, RuntimeTrap::MemoryFault),
        (ExitKind::TableOutOfBounds, RuntimeTrap::InvalidTableAccess),
        (ExitKind::IndirectCallNullPointer, RuntimeTrap::InvalidTableAccess),
        (ExitKind::IndirectCallTypeMismatch, RuntimeTrap::IndirectCallTypeMismatch),
        (ExitKind::IntegerDivisionByZero, RuntimeTrap::IntegerDivideByZero),
        (ExitKind::IntegerOverflow, RuntimeTrap::IntegerOverflow),
        (ExitKind::InvalidConversionToInteger, RuntimeTrap::InvalidConversionToInteger),
        (ExitKind::UnalignedAtomic, RuntimeTrap::UnalignedAtomic),
        (ExitKind::FuelExhausted, RuntimeTrap::FuelExhausted),
        (ExitKind::PolicyDenied, RuntimeTrap::PolicyDenied),
    ];
    for (kind, trap) in cases {
        assert_eq!(exit_action(kind, 0, 0), ExitAction::Trap(trap));
        assert!(!resets_exit_code(ExitAction::Trap(trap)));
    }
}

#[test]
fn unsupported_exits_carry_their_detail() {
    let wait = exit_action(ExitKind::MemoryWait64, 0, 0);
    assert_eq!(wait, ExitAction::Unsupported(UnsupportedExit::MemoryWait));
    assert_eq!(UnsupportedExit::MemoryWait.detail(), "memory.wait requires runtime integration");
    assert_eq!(UnsupportedExit::MemoryNotify.detail(), "memory.notify requires runtime integration");
    assert_eq!(
        exit_action(ExitKind::CallListenerAfter, 0, 0),
        ExitAction::Unsupported(UnsupportedExit::Listener)
    );
    assert_eq!(UnsupportedExit::Listener.detail(), "listener trampoline requires runtime integration");
    assert_eq!(
        exit_action(ExitKind::Other(99), 0, 0),
        ExitAction::Unsupported(UnsupportedExit::Unhandled(99))
    );
    assert_eq!(UnsupportedExit::Unhandled(99).detail(), "unhandled compiler exit code");
}

#[test]
fn engine_services_resume_the_loop() {
    assert_eq!(exit_action(ExitKind::GrowStack, 0, 0), ExitAction::GrowStack);
    assert_eq!(exit_action(ExitKind::GrowMemory, 0, 0), ExitAction::GrowMemory);
    assert_eq!(exit_action(ExitKind::TableGrow, 0, 0), ExitAction::TableGrow);
    assert_eq!(exit_action(ExitKind::RefFunc, 0, 0), ExitAction::RefFunc);
    for action in [ExitAction::GrowStack, ExitAction::GrowMemory, ExitAction::TableGrow, ExitAction::RefFunc] {
        assert!(resets_exit_code(action));
    }
}

#[test]
fn raw_slots_are_read_with_saturation() {
    assert_eq!(ref_func_result(5), 5);
    assert_eq!(ref_func_result(u64::MAX), u32::MAX as u64);
    assert_eq!(raw_reference(u64::MAX), None);
    assert_eq!(raw_reference(3), Some(3));
    assert_eq!(saturating_u32(1 << 40), u32::MAX);
    assert_eq!(saturating_u32(12), 12);
}
