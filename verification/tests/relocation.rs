use object::{Object, ObjectSection};
use razero_compiler::aot::{
    AotCompiledMetadata, AotFunctionMetadata, AotImportDescMetadata, AotImportMetadata,
    AotModuleShapeMetadata, AotRelocationMetadata, AotTarget, AotTargetArchitecture,
    AotTargetOperatingSystem, EXTERN_TYPE_FUNC,
};
use razero_compiler::elf::emit_relocatable_object;
use razero_compiler::relocation::{
    aarch64_relocation_offset, align16_vec, import_function_symbol_name,
    linked_wasm_function_symbol_name, local_wasm_function_symbol_name, normalize_aarch64_relocation_sites,
    normalize_relocation_sites, normalize_x86_64_relocation_sites, sanitize_symbol_component,
    x86_64_relocation_offset, ObjectEmissionError,
};

fn call(offset: i64, target: u32, tail: bool) -> AotRelocationMetadata {
    AotRelocationMetadata { executable_offset: offset, is_tail_call: tail, target_function_index: target }
}

#[test]
fn x86_64_call_sites_lose_their_displacement() {
    let mut text = vec![0xe8, 1, 2, 3, 4, 0x90, 0xe8, 5, 6, 7, 8];
    normalize_x86_64_relocation_sites(&mut text, &[call(0, 0, false), call(6, 1, false)]).unwrap();
    assert_eq!(text, vec![0xe8, 0, 0, 0, 0, 0x90, 0xe8, 0, 0, 0, 0]);
}

#[test]
fn aarch64_call_sites_become_branches() {
    let mut text = vec![0xff; 8];
    normalize_aarch64_relocation_sites(&mut text, &[call(0, 0, false), call(4, 1, true)]).unwrap();
    assert_eq!(text, vec![0, 0, 0, 0x94, 0, 0, 0, 0x14]);
}

#[test]
fn call_sites_out_of_bounds_or_negative_are_refused() {
    let mut text = vec![0xe8, 1, 2, 3];
    let err = normalize_x86_64_relocation_sites(&mut text, &[call(0, 0, false)]).unwrap_err();
    assert_eq!(err.message(), "relocation site at 0 is out of bounds for 4 bytes");
    let err = normalize_aarch64_relocation_sites(&mut text, &[call(-3, 0, false)]).unwrap_err();
    assert_eq!(err.message(), "invalid negative relocation offset -3");
    let err = normalize_relocation_sites(AotTargetArchitecture::Unknown, &mut text, &[]).unwrap_err();
    assert_eq!(err.message(), "unsupported relocation architecture Unknown");
    assert_eq!(text, vec![0xe8, 1, 2, 3]);
}

#[test]
fn sites_before_a_bad_one_stay_normalized() {
    let mut text = vec![0xe8, 1, 2, 3, 4, 0xe8];
    let err = normalize_x86_64_relocation_sites(&mut text, &[call(0, 0, false), call(5, 0, false)]).unwrap_err();
    assert_eq!(err.message(), "relocation site at 5 is out of bounds for 6 bytes");
    assert_eq!(text, vec![0xe8, 0, 0, 0, 0, 0xe8]);
}

#[test]
fn relocation_offsets_per_architecture() {
    assert_eq!(x86_64_relocation_offset(&call(10, 0, false)).unwrap(), 11);
    assert_eq!(aarch64_relocation_offset(&call(10, 0, false)).unwrap(), 10);
    let err: ObjectEmissionError = x86_64_relocation_offset(&call(-1, 0, false)).unwrap_err();
    assert_eq!(err.message(), "invalid negative relocation offset -1");
    assert_eq!(
        aarch64_relocation_offset(&call(i64::MIN, 0, false)).unwrap_err().message(),
        "invalid negative relocation offset -9223372036854775808"
    );
}

#[test]
fn symbol_names_of_functions() {
    let mut id = [0u8; 32];
    id[0] = 0x01;
    id[31] = 0xfe;
    let name = linked_wasm_function_symbol_name(&id, 42);
    assert_eq!(name, format!("razero_wasm_function_01{}fe_42", "00".repeat(30)));
    assert_eq!(local_wasm_function_symbol_name(3), "razero_wasm_function_3");
    assert_eq!(import_function_symbol_name(0, "env", "print-line"), "razero_import_function_0_env_print_line");
    assert_eq!(sanitize_symbol_component(""), "");
    assert_eq!(sanitize_symbol_component("9a-b"), "9a_b");
}

#[test]
fn text_is_padded_to_sixteen_bytes() {
    let mut bytes = vec![1u8; 17];
    align16_vec(&mut bytes);
    assert_eq!(bytes.len(), 32);
    assert!(bytes[17..].iter().all(|b| *b == 0));
    let mut bytes = vec![1u8; 16];
    align16_vec(&mut bytes);
    assert_eq!(bytes.len(), 16);
}

fn module_metadata(arch: AotTargetArchitecture) -> AotCompiledMetadata {
    AotCompiledMetadata {
        module_id: [0x11; 32],
        target: AotTarget { operating_system: AotTargetOperatingSystem::Linux, architecture: arch },
        module_shape: AotModuleShapeMetadata { import_function_count: 1, ..AotModuleShapeMetadata::default() },
        imports: vec![AotImportMetadata {
            ty: EXTERN_TYPE_FUNC,
            module: "env".to_string(),
            name: "f".to_string(),
            desc: AotImportDescMetadata::Func(0),
            index_per_type: 0,
        }],
        functions: vec![AotFunctionMetadata {
            local_function_index: 0,
            wasm_function_index: 1,
            type_index: 0,
            executable_offset: 0,
            executable_len: 16,
        }],
        relocations: vec![call(4, 0, false), call(9, 1, false)],
        ..AotCompiledMetadata::default()
    }
}

fn contains(haystack: &[u8], needle: &[u8]) -> bool {
    haystack.windows(needle.len()).any(|w| w == needle)
}

#[test]
fn emit_relocatable_object_writes_an_elf_object_with_symbols() {
    let text = vec![0x90u8; 16];
    let artifact = emit_relocatable_object(&text, &module_metadata(AotTargetArchitecture::X86_64), vec![7, 7]).unwrap();
    assert_eq!(&artifact.object_bytes[..4], b"\x7fELF");
    assert_eq!(artifact.metadata_sidecar_bytes, vec![7, 7]);
    assert!(contains(&artifact.object_bytes, b"razero-module"));
    assert!(contains(&artifact.object_bytes, b"razero_import_function_0_env_f"));
    assert!(contains(&artifact.object_bytes, b"razero_wasm_function_1"));
    assert!(contains(&artifact.object_bytes, format!("razero_wasm_function_{}_1", "11".repeat(32)).as_bytes()));
}

#[test]
fn emit_relocatable_object_supports_aarch64() {
    let text = vec![0u8; 16];
    let artifact = emit_relocatable_object(&text, &module_metadata(AotTargetArchitecture::Aarch64), vec![]).unwrap();
    assert_eq!(&artifact.object_bytes[..4], b"\x7fELF");
}

#[test]
fn emit_relocatable_object_refuses_other_targets_and_missing_symbols() {
    let mut metadata = module_metadata(AotTargetArchitecture::X86_64);
    metadata.target.operating_system = AotTargetOperatingSystem::Darwin;
    assert_eq!(
        emit_relocatable_object(&[0u8; 16], &metadata, vec![]).unwrap_err().message(),
        "relocatable object emission currently supports Linux only (got Darwin)"
    );
    let mut metadata = module_metadata(AotTargetArchitecture::Unknown);
    assert_eq!(
        emit_relocatable_object(&[0u8; 16], &metadata, vec![]).unwrap_err().message(),
        "relocatable object emission currently supports x86_64 and aarch64 only (got Unknown)"
    );
    metadata.target.architecture = AotTargetArchitecture::X86_64;
    metadata.relocations.push(call(0, 5, false));
    assert_eq!(
        emit_relocatable_object(&[0u8; 16], &metadata, vec![]).unwrap_err().message(),
        "missing relocation target symbol for function index 5"
    );
    metadata.relocations = vec![call(14, 1, false)];
    assert_eq!(
        emit_relocatable_object(&[0u8; 16], &metadata, vec![]).unwrap_err().message(),
        "relocation site at 14 is out of bounds for 16 bytes"
    );
}

fn two_function_metadata(arch: AotTargetArchitecture, second_offset: usize, first_len: usize, second_len: usize) -> AotCompiledMetadata {
    AotCompiledMetadata {
        target: AotTarget { operating_system: AotTargetOperatingSystem::Linux, architecture: arch },
        functions: vec![
            AotFunctionMetadata {
                local_function_index: 0,
                wasm_function_index: 0,
                type_index: 0,
                executable_offset: 0,
                executable_len: first_len,
            },
            AotFunctionMetadata {
                local_function_index: 1,
                wasm_function_index: 1,
                type_index: 0,
                executable_offset: second_offset,
                executable_len: second_len,
            },
        ],
        relocations: vec![call(0, 1, false)],
        ..AotCompiledMetadata::default()
    }
}

#[test]
fn emit_relocatable_object_preserves_x86_64_call_relocations() {
    let text = vec![0xE8, 0x11, 0x22, 0x33, 0x44, 0xC3, 0x90, 0x90, 0xC3];
    let metadata = two_function_metadata(AotTargetArchitecture::X86_64, 8, 6, 1);
    let artifact = emit_relocatable_object(&text, &metadata, Vec::new()).unwrap();
    let file = object::File::parse(artifact.object_bytes.as_slice()).unwrap();
    let text = file.section_by_name(".text").unwrap();
    let relocations: Vec<_> = text.relocations().collect();

    assert_eq!(&text.data().unwrap()[..5], &[0xE8, 0, 0, 0, 0]);
    assert_eq!(relocations.len(), 1);
    assert_eq!(relocations[0].0, 1);
}

#[test]
fn emit_relocatable_object_preserves_aarch64_call_relocations() {
    let text = vec![0xff, 0xff, 0xff, 0xff, 0xc0, 0x03, 0x5f, 0xd6];
    let metadata = two_function_metadata(AotTargetArchitecture::Aarch64, 4, 4, 4);
    let artifact = emit_relocatable_object(&text, &metadata, Vec::new()).unwrap();
    let file = object::File::parse(artifact.object_bytes.as_slice()).unwrap();
    let text = file.section_by_name(".text").unwrap();
    let relocations: Vec<_> = text.relocations().collect();

    assert_eq!(file.architecture(), object::Architecture::Aarch64);
    assert_eq!(&text.data().unwrap()[..4], &[0x00, 0x00, 0x00, 0x94]);
    assert_eq!(relocations.len(), 1);
    assert_eq!(relocations[0].0, 0);
}

#[test]
fn emitted_objects_are_relocatable_with_an_aligned_text_section() {
    let text = vec![0x90u8; 16];
    let artifact = emit_relocatable_object(&text, &module_metadata(AotTargetArchitecture::X86_64), vec![]).unwrap();
    let file = object::File::parse(artifact.object_bytes.as_slice()).unwrap();
    let section = file.section_by_name(".text").unwrap();
    assert_eq!(file.kind(), object::ObjectKind::Relocatable);
    assert_eq!(file.architecture(), object::Architecture::X86_64);
    assert_eq!(section.kind(), object::SectionKind::Text);
    assert_eq!(section.align(), 16);
    assert!(file.symbol_by_name("razero_import_function_0_env_f").is_some());
    assert!(file.symbol_by_name("razero_wasm_function_1").is_some());
    assert!(file.symbol_by_name(&linked_wasm_function_symbol_name(&[0x11; 32], 1)).is_some());
    // The two call sites in the module's text target the import and the function.
    assert_eq!(section.relocations().count(), 2);
}
