use razero_compiler::code_map::{
    function_index_of, source_offset_for_pc, split_point_exec, ExecutableRange, SortedCompiledModules,
};
use razero_compiler::engine_cache::SourceMap;
use razero_compiler::module_registry::CompiledModuleRegistry;

#[test]
fn split_point_counts_the_values_at_most_the_key() {
    let offsets = [0usize, 10, 10, 30];
    assert_eq!(split_point_exec(&offsets, 0), 1);
    assert_eq!(split_point_exec(&offsets, 9), 1);
    assert_eq!(split_point_exec(&offsets, 10), 3);
    assert_eq!(split_point_exec(&offsets, 100), 4);
    assert_eq!(split_point_exec(&[], 5), 0);
}

#[test]
fn function_index_of_finds_the_enclosing_function() {
    let offsets = [0usize, 16, 48];
    assert_eq!(function_index_of(0x1000, 64, &offsets, 0x1000), Some(0));
    assert_eq!(function_index_of(0x1000, 64, &offsets, 0x100f), Some(0));
    assert_eq!(function_index_of(0x1000, 64, &offsets, 0x1010), Some(1));
    assert_eq!(function_index_of(0x1000, 64, &offsets, 0x103f), Some(2));
    assert_eq!(function_index_of(0x1000, 64, &offsets, 0x1040), None);
    assert_eq!(function_index_of(0x1000, 64, &offsets, 0x0fff), None);
    assert_eq!(function_index_of(0, 64, &offsets, 8), None);
    assert_eq!(function_index_of(0x1000, 64, &[8usize], 0x1004), None);
}

#[test]
fn source_offsets_come_from_the_last_mapped_instruction() {
    let map = SourceMap { executable_offsets: vec![0, 4, 12], wasm_binary_offsets: vec![100, 104, 120] };
    assert_eq!(source_offset_for_pc(0x2000, &map, 0x2000), 100);
    assert_eq!(source_offset_for_pc(0x2000, &map, 0x2007), 104);
    assert_eq!(source_offset_for_pc(0x2000, &map, 0x2100), 120);
    assert_eq!(source_offset_for_pc(0x2000, &map, 0x1000), 100);
    let later = SourceMap { executable_offsets: vec![8], wasm_binary_offsets: vec![7] };
    assert_eq!(source_offset_for_pc(0x2000, &later, 0x2004), 0);
}

fn range(base: usize, len: usize, id: u8) -> ExecutableRange {
    ExecutableRange { base, len, module_id: [id; 32] }
}

#[test]
fn compiled_modules_stay_ordered_by_base() {
    let mut modules = SortedCompiledModules::new();
    modules.add(range(0x3000, 0x100, 3));
    modules.add(range(0x1000, 0x100, 1));
    modules.add(range(0x2000, 0x100, 2));
    let bases: Vec<usize> = modules.entries().iter().map(|r| r.base).collect();
    assert_eq!(bases, vec![0x1000, 0x2000, 0x3000]);
}

#[test]
fn compiled_module_of_addr_finds_the_enclosing_executable() {
    let mut modules = SortedCompiledModules::new();
    modules.add(range(0x1000, 0x100, 1));
    modules.add(range(0x2000, 0x100, 2));
    assert_eq!(modules.of_addr(0x1000).map(|r| r.module_id[0]), Some(1));
    assert_eq!(modules.of_addr(0x20ff).map(|r| r.module_id[0]), Some(2));
    assert!(modules.of_addr(0x1100).is_none());
    assert!(modules.of_addr(0x0fff).is_none());
    assert!(modules.of_addr(0x2100).is_none());
}

#[test]
fn deleting_a_compiled_module_removes_only_the_first_at_its_base() {
    let mut modules = SortedCompiledModules::new();
    modules.add(range(0x1000, 0x100, 1));
    modules.add(range(0x2000, 0x100, 2));
    modules.delete(0x1000);
    assert!(modules.of_addr(0x1000).is_none());
    assert_eq!(modules.of_addr(0x2000).map(|r| r.module_id[0]), Some(2));
    modules.delete(0x5000);
    assert_eq!(modules.entries().len(), 1);
}

#[test]
fn registry_counts_compilations_and_orders_executables() {
    let mut registry = CompiledModuleRegistry::new();
    let a = ExecutableRange { base: 0x9000, len: 32, module_id: [1; 32] };
    let b = ExecutableRange { base: 0x4000, len: 32, module_id: [2; 32] };
    registry.add([1; 32], Some(a));
    registry.add([2; 32], Some(b));
    registry.add([1; 32], Some(a));
    registry.add([3; 32], None);
    assert_eq!(registry.ref_count(&[1; 32]), Some(2));
    assert_eq!(registry.ref_count(&[2; 32]), Some(1));
    assert_eq!(registry.ref_count(&[3; 32]), Some(1));
    assert_eq!(registry.ref_count(&[4; 32]), None);
    assert_eq!(registry.compiled_module_count(), 3);
    assert_eq!(registry.of_addr(0x4008).map(|r| r.module_id), Some([2; 32]));

    // Deleting a module compiled twice keeps it; once more removes it.
    registry.delete([1; 32]);
    assert_eq!(registry.ref_count(&[1; 32]), Some(1));
    assert_eq!(registry.of_addr(0x9008).map(|r| r.module_id), Some([1; 32]));
    assert_eq!(registry.compiled_module_count(), 3);
    registry.delete([1; 32]);
    assert_eq!(registry.ref_count(&[1; 32]), None);
    assert_eq!(registry.compiled_module_count(), 2);
    assert!(registry.of_addr(0x9008).is_none());

    // Deleting an unknown module changes nothing.
    registry.delete([9; 32]);
    assert_eq!(registry.ref_count(&[2; 32]), Some(1));
    registry.clear();
    assert_eq!(registry.ref_count(&[2; 32]), None);
    assert!(registry.of_addr(0x4008).is_none());
}
