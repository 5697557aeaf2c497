use razero_compiler::frontend::misc::{function_index_to_func_ref, FuncRef};
use razero_compiler::frontend::sort_id::{sort_ssa_value_ids, ValueId};
use razero_compiler::memmove::memmove;

#[test]
fn memmove_handles_overlapping_ranges() {
    let mut bytes = *b"abcdef";
    memmove(&mut bytes, 1, 0, 5);
    assert_eq!(&bytes, b"aabcde");
}

#[test]
fn memmove_moves_down_and_does_nothing_for_empty_ranges() {
    let mut bytes = *b"abcdef";
    memmove(&mut bytes, 0, 2, 4);
    assert_eq!(&bytes, b"cdefef");
    memmove(&mut bytes, 3, 1, 0);
    assert_eq!(&bytes, b"cdefef");
}

#[test]
fn function_indexes_become_func_refs() {
    assert_eq!(function_index_to_func_ref(7), FuncRef(7));
}

#[test]
fn value_ids_sort_ascending() {
    let mut ids = vec![ValueId(5), ValueId(1), ValueId(3), ValueId(1), ValueId(0)];
    sort_ssa_value_ids(&mut ids);
    assert_eq!(ids, vec![ValueId(0), ValueId(1), ValueId(1), ValueId(3), ValueId(5)]);
    let mut empty: Vec<ValueId> = Vec::new();
    sort_ssa_value_ids(&mut empty);
    assert!(empty.is_empty());
}
