use razero_compiler::call_engine::{
    aligned_stack_top, aligned_stack_top_at, clone_stack_into, grown_stack_len,
    required_initial_stack_size, ExecutionContext, CALL_STACK_CEILING,
};
use razero_compiler::isa_amd64;
use razero_compiler::isa_other;
use razero_compiler::aot::{AotExecutionContextMetadata, AotTargetArchitecture};

#[test]
fn aligned_stack_top_is_16_byte_aligned() {
    let stack = vec![0u8; 64];
    assert_eq!(aligned_stack_top(&stack) & 15, 0);
}

#[test]
fn aligned_stack_top_is_within_the_last_sixteen_bytes() {
    let stack = vec![0u8; 64];
    let top = aligned_stack_top(&stack);
    let last = stack.as_ptr() as usize + 63;
    assert!(top <= last && last - top < 16);
    assert_eq!(aligned_stack_top(&[]), 0);
    assert_eq!(aligned_stack_top_at(0x1000, 64), 0x1030);
    assert_eq!(aligned_stack_top_at(0x1001, 16), 0x1010);
    assert_eq!(aligned_stack_top_at(0x1000, 0), 0);
}

#[test]
fn initial_stack_size_has_a_floor() {
    assert_eq!(required_initial_stack_size(0), 10_240);
    assert_eq!(required_initial_stack_size(1000), 1000 * 16 + 48);
}

#[test]
fn stacks_grow_until_the_ceiling() {
    assert_eq!(grown_stack_len(32, 160), Some(32 * 2 + 160 + 16));
    assert_eq!(grown_stack_len(CALL_STACK_CEILING, 0), Some(CALL_STACK_CEILING * 2 + 16));
    assert_eq!(grown_stack_len(CALL_STACK_CEILING + 1, 0), None);
}

#[test]
fn cloned_stacks_keep_the_live_window_at_the_top() {
    let old: Vec<u8> = (0..32).collect();
    let old_bottom = 0x1000;
    let stack_top = old_bottom + 15;
    let (sp, fp, top, new) = clone_stack_into(&old, old_bottom, stack_top, old_bottom + 10, old_bottom + 14, vec![0u8; 240], 0x2000);
    assert_eq!(top, 0x2000 + 0xe0);
    assert_eq!(sp, top - 5);
    assert_eq!(fp, top - 1);
    let at = sp - 0x2000;
    assert_eq!(&new[at..at + 5], &[10, 11, 12, 13, 14]);
    assert_eq!(new.iter().filter(|b| **b != 0).count(), 5);
}

#[test]
fn execution_contexts_start_zeroed() {
    let ctx = ExecutionContext::default();
    assert_eq!(ctx.exit_code, 0);
    assert_eq!(ctx.fuel, 0);
    assert!(ctx.saved_registers.iter().all(|pair| pair == &[0, 0]));
    let layout = AotExecutionContextMetadata::current();
    assert_eq!(layout.size, 1192);
    assert_eq!(layout.frame_pointer_before_go_call_offset, 1152);
}

#[test]
fn isa_glue() {
    assert!(isa_amd64::is_supported(AotTargetArchitecture::X86_64));
    assert!(!isa_amd64::is_supported(AotTargetArchitecture::Aarch64));
    assert!(!isa_other::is_supported());
    assert_eq!(isa_amd64::arch(), "amd64");
    let mut addresses = vec![1usize, 2];
    isa_amd64::unwind_stack(0, 0, 0, &mut addresses);
    assert!(addresses.is_empty());
    let words = [16u64, 7, 8, 9];
    assert_eq!(isa_amd64::go_call_stack_view(&words), &[7, 8]);
    isa_amd64::adjust_cloned_stack(0, 0, 0, 0, 0);
}
