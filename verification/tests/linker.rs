use razero_compiler::aot::{
    AotCompiledMetadata, AotDataSegmentMetadata, AotExportMetadata, AotFunctionMetadata,
    AotFunctionTypeMetadata, AotImportDescMetadata, AotImportMetadata, AotMemoryMetadata,
    AotModuleShapeMetadata, AotTarget, AotTargetArchitecture, AotTargetOperatingSystem,
    EXTERN_TYPE_FUNC, EXTERN_TYPE_MEMORY, VALUE_TYPE_F32, VALUE_TYPE_F64, VALUE_TYPE_I32,
    VALUE_TYPE_I64, VALUE_TYPE_V128,
};
use razero_compiler::linker::{
    active_data_offset, build_hello_host_handler_source, c_type_name, cabi_wrapper_symbol_name,
    comma_hex_bytes, function_type_supported, hello_host_handler_symbol_name, module_context_name,
    module_exports, module_init_function_name, module_memory_name, native_packaging_target,
    packaged_host_import_symbol_name, param_pack_source, preamble_symbol_name,
    result_unpack_source, sanitize_identifier, scalar_c_abi_value, table_elements_name,
    validate_hello_host_metadata, validate_metadata_support, HelloHostSpec, NativeLinkError,
    NativeLinkModule, NativePackagingTarget,
};
use razero_compiler::package::PackagedHostImportDescriptor;
use razero_compiler::relocation::RelocatableObjectArtifact;

fn x86_target() -> Result<NativePackagingTarget, NativeLinkError> {
    native_packaging_target(true, AotTargetArchitecture::X86_64)
}

fn function_type(params: &[u8], results: &[u8]) -> AotFunctionTypeMetadata {
    AotFunctionTypeMetadata {
        params: params.to_vec(),
        results: results.to_vec(),
        param_num_in_u64: params.len(),
        result_num_in_u64: results.len(),
    }
}

/// The metadata of the hello-host guest: it imports `env.print(i32, i32)`,
/// has one page of memory holding a greeting, and exports `run: () -> ()`.
fn hello_host_metadata() -> AotCompiledMetadata {
    AotCompiledMetadata {
        module_id: [0xab; 32],
        target: AotTarget {
            operating_system: AotTargetOperatingSystem::Linux,
            architecture: AotTargetArchitecture::X86_64,
        },
        module_shape: AotModuleShapeMetadata {
            import_function_count: 1,
            local_function_count: 1,
            has_local_memory: true,
            has_any_memory: true,
            data_segment_count: 1,
            ..AotModuleShapeMetadata::default()
        },
        types: vec![function_type(&[VALUE_TYPE_I32, VALUE_TYPE_I32], &[]), function_type(&[], &[])],
        imports: vec![AotImportMetadata {
            ty: EXTERN_TYPE_FUNC,
            module: "env".to_string(),
            name: "print".to_string(),
            desc: AotImportDescMetadata::Func(0),
            index_per_type: 0,
        }],
        exports: vec![AotExportMetadata { name: "run".to_string(), ty: EXTERN_TYPE_FUNC, index: 1 }],
        functions: vec![AotFunctionMetadata {
            local_function_index: 0,
            wasm_function_index: 1,
            type_index: 1,
            executable_offset: 0,
            executable_len: 16,
        }],
        memory: Some(AotMemoryMetadata { min: 1, cap: 2, max: 2, is_max_encoded: true, is_shared: false }),
        data_segments: vec![AotDataSegmentMetadata {
            offset_expression: vec![0x41, 0x08, 0x0b],
            init: b"hello world from guest\n".to_vec(),
            passive: false,
        }],
        ..AotCompiledMetadata::default()
    }
}

#[test]
fn hello_host_spec_is_built_from_the_guest() {
    let spec = HelloHostSpec::from_metadata("hello-host", &hello_host_metadata(), x86_target()).unwrap();
    assert_eq!(spec.run_symbol, format!("razero_wasm_function_{}_1", "ab".repeat(32)));
    assert!(spec.run_type.params.is_empty() && spec.run_type.results.is_empty());
    assert_eq!(spec.memory_len_bytes, 2 * 65536);
    assert_eq!(spec.data_segments.len(), 1);
    assert_eq!(spec.data_segments[0].offset, 8);
    assert_eq!(spec.data_segments[0].init, b"hello world from guest\n".to_vec());
    assert_eq!(spec.host_imports.len(), 1);
    let import = &spec.host_imports[0];
    assert_eq!(
        import.descriptor,
        PackagedHostImportDescriptor {
            guest_module_name: "hello-host".to_string(),
            import_module: "env".to_string(),
            import_name: "print".to_string(),
            function_import_index: 0,
            type_index: 0,
            host_symbol_name: "razero_hello_host_env_print_handler".to_string(),
        }
    );
    assert_eq!(import.trampoline_symbol, "razero_import_function_0_env_print");
    assert_eq!(import.import_type.params, vec![VALUE_TYPE_I32, VALUE_TYPE_I32]);
}

#[test]
fn validate_hello_host_metadata_accepts_the_guest() {
    assert_eq!(validate_hello_host_metadata(&hello_host_metadata(), x86_target()), Ok(()));
}

#[test]
fn validate_hello_host_metadata_rejects_multiple_function_imports() {
    let mut metadata = hello_host_metadata();
    metadata.imports.push(AotImportMetadata {
        ty: EXTERN_TYPE_FUNC,
        module: "env".to_string(),
        name: "log".to_string(),
        desc: AotImportDescMetadata::Func(0),
        index_per_type: 1,
    });
    let err = validate_hello_host_metadata(&metadata, x86_target()).unwrap_err();
    assert_eq!(
        err.message(),
        "packaged host-import linker expected a descriptor for every imported function"
    );
}

#[test]
fn validate_hello_host_metadata_rejects_wrong_host_import_signature() {
    let mut metadata = hello_host_metadata();
    metadata.types.push(function_type(&[VALUE_TYPE_I32], &[]));
    metadata.imports[0].desc = AotImportDescMetadata::Func(2);
    let err = validate_hello_host_metadata(&metadata, x86_target()).unwrap_err();
    assert_eq!(
        err.message(),
        "hello-host linker expects its host import to use the (i32, i32) -> () signature"
    );
}

#[test]
fn validate_hello_host_metadata_rejects_run_export_with_non_void_signature() {
    let mut metadata = hello_host_metadata();
    metadata.types.push(function_type(&[VALUE_TYPE_I32], &[]));
    metadata.functions[0].type_index = 2;
    let err = HelloHostSpec::from_metadata("hello-host", &metadata, x86_target()).unwrap_err();
    assert_eq!(err.message(), "hello-host run export must use the () -> () signature");
}

#[test]
fn validate_hello_host_metadata_rejects_missing_run_export() {
    let mut metadata = hello_host_metadata();
    metadata.exports.clear();
    let err = validate_hello_host_metadata(&metadata, x86_target()).unwrap_err();
    assert_eq!(err.message(), "hello-host guest must export func run");
}

#[test]
fn validate_hello_host_metadata_rejects_missing_local_memory() {
    let mut metadata = hello_host_metadata();
    metadata.memory = None;
    let err = HelloHostSpec::from_metadata("hello-host", &metadata, x86_target()).unwrap_err();
    assert_eq!(err.message(), "hello-host guest must define one local memory");
}

#[test]
fn validate_hello_host_metadata_rejects_passive_data_segments() {
    let mut metadata = hello_host_metadata();
    metadata.data_segments[0].passive = true;
    let err = HelloHostSpec::from_metadata("hello-host", &metadata, x86_target()).unwrap_err();
    assert_eq!(err.message(), "hello-host linker does not support passive data segments");
}

#[test]
fn hello_host_run_must_be_a_local_function() {
    let mut metadata = hello_host_metadata();
    metadata.exports[0].index = 9;
    let err = HelloHostSpec::from_metadata("hello-host", &metadata, x86_target()).unwrap_err();
    assert_eq!(err.message(), "hello-host run export must resolve to a local function");
}

#[test]
fn hello_host_validation_reports_unsupported_hosts_first() {
    let err = validate_hello_host_metadata(&hello_host_metadata(), native_packaging_target(false, AotTargetArchitecture::X86_64))
        .unwrap_err();
    assert_eq!(
        err.message(),
        "native executable packaging currently requires a Linux/x86_64 or Linux/aarch64 host"
    );
    let mut metadata = hello_host_metadata();
    metadata.target.architecture = AotTargetArchitecture::Aarch64;
    assert_eq!(
        validate_hello_host_metadata(&metadata, x86_target()).unwrap_err().message(),
        "packaged host-import linker only supports Linux artifacts matching the native linker architecture"
    );
}

#[test]
fn packaging_targets_of_supported_hosts() {
    let x86 = native_packaging_target(true, AotTargetArchitecture::X86_64).unwrap();
    assert!(x86.trim_void_preamble_prologue);
    assert_eq!(x86.entrypoint_symbol(), "razero_amd64_entrypoint");
    let arm = native_packaging_target(true, AotTargetArchitecture::Aarch64).unwrap();
    assert!(!arm.trim_void_preamble_prologue);
    assert_eq!(arm.after_host_call_entrypoint_symbol(), "razero_arm64_after_go_function_call_entrypoint");
}

#[test]
fn metadata_support_rejects_unsupported_targets() {
    let target = x86_target().unwrap();
    let mut metadata = hello_host_metadata();
    metadata.target.operating_system = AotTargetOperatingSystem::Windows;
    metadata.target.architecture = AotTargetArchitecture::Aarch64;
    assert_eq!(
        validate_metadata_support("guest", &metadata, target).unwrap_err().message(),
        "module 'guest' targets Windows, only linux is supported"
    );
    metadata.target.operating_system = AotTargetOperatingSystem::Linux;
    assert_eq!(
        validate_metadata_support("guest", &metadata, target).unwrap_err().message(),
        "module 'guest' targets aarch64, but this linker instance packages x86_64 artifacts"
    );
    metadata.target.architecture = AotTargetArchitecture::X86_64;
    assert_eq!(
        validate_metadata_support("guest", &metadata, target).unwrap_err().message(),
        "module 'guest' is outside the packaged linked-runtime slice: linked runtime packaging currently requires modules without imports"
    );
}

#[test]
fn active_data_offsets_are_integer_constants() {
    let segment = |expr: Vec<u8>| AotDataSegmentMetadata { offset_expression: expr, init: vec![], passive: false };
    assert_eq!(active_data_offset(&segment(vec![0x41, 0x10, 0x0b])).unwrap(), 16);
    assert_eq!(active_data_offset(&segment(vec![0x42, 0x20, 0x0b])).unwrap(), 32);
    assert_eq!(
        active_data_offset(&segment(vec![0x43, 0, 0, 0, 0, 0x0b])).unwrap_err().message(),
        "packaged host-import data offsets must evaluate to i32/i64"
    );
}

#[test]
fn import_descriptors_come_from_function_imports_only() {
    let memory_import = AotImportMetadata {
        ty: EXTERN_TYPE_MEMORY,
        module: "env".to_string(),
        name: "memory".to_string(),
        desc: AotImportDescMetadata::Memory(AotMemoryMetadata::default()),
        index_per_type: 0,
    };
    let err = PackagedHostImportDescriptor::from_import_metadata("g".to_string(), &memory_import, "h".to_string())
        .unwrap_err();
    assert_eq!(err.message(), "import 'env.memory' is not a function import");
}

#[test]
fn identifiers_are_sanitized() {
    assert_eq!(sanitize_identifier("hello-host"), "hello_host");
    assert_eq!(sanitize_identifier(""), "module");
    assert_eq!(sanitize_identifier("9lives"), "_9lives");
    assert_eq!(sanitize_identifier("a.b c"), "a_b_c");
    assert_eq!(sanitize_identifier("é"), "_");
}

#[test]
fn symbol_names_follow_their_patterns() {
    assert_eq!(module_init_function_name("guest-a"), "razero_cabi_guest_a_initialize");
    assert_eq!(module_context_name("guest"), "razero_cabi_guest_module_ctx");
    assert_eq!(module_memory_name("guest"), "razero_cabi_guest_memory");
    assert_eq!(table_elements_name("guest", 2), "razero_cabi_guest_table_2_elements");
    assert_eq!(cabi_wrapper_symbol_name("guest", 7), "razero_cabi_guest_function_7");
    assert_eq!(preamble_symbol_name("guest", 3), "razero_cabi_guest_type_3_preamble");
    assert_eq!(hello_host_handler_symbol_name("env", "print"), "razero_hello_host_env_print_handler");
    assert_eq!(packaged_host_import_symbol_name(4, "env", "0x"), "razero_import_function_4_env__0x");
}

#[test]
fn comma_hex_bytes_lists_every_byte() {
    assert_eq!(comma_hex_bytes(&[]), "0x00");
    assert_eq!(comma_hex_bytes(&[0x0f]), "0x0f");
    assert_eq!(comma_hex_bytes(&[1, 0xab, 0xff]), "0x01, 0xab, 0xff");
}

#[test]
fn c_abi_types_and_sources() {
    assert!(scalar_c_abi_value(VALUE_TYPE_I32));
    assert!(!scalar_c_abi_value(VALUE_TYPE_V128));
    assert!(function_type_supported(&function_type(&[VALUE_TYPE_I64, VALUE_TYPE_F32], &[VALUE_TYPE_F64])));
    assert!(!function_type_supported(&function_type(&[], &[VALUE_TYPE_I32, VALUE_TYPE_I32])));
    assert!(!function_type_supported(&function_type(&[VALUE_TYPE_V128], &[])));
    assert_eq!(c_type_name(VALUE_TYPE_F64), "double");
    assert_eq!(param_pack_source(VALUE_TYPE_I32, 2), "    param_result[2] = (uint32_t)arg2;\n");
    assert_eq!(
        param_pack_source(VALUE_TYPE_F32, 0),
        "    union { float value; uint32_t bits; } arg0_bits = { .value = arg0 };\n    param_result[0] = arg0_bits.bits;\n"
    );
    assert_eq!(result_unpack_source(VALUE_TYPE_I64), "    return (int64_t)param_result[0];\n");
}

#[test]
fn module_exports_keep_c_abi_compatible_functions() {
    let mut metadata = hello_host_metadata();
    metadata.types.push(function_type(&[VALUE_TYPE_V128], &[]));
    metadata.functions.push(AotFunctionMetadata {
        local_function_index: 1,
        wasm_function_index: 2,
        type_index: 2,
        executable_offset: 16,
        executable_len: 16,
    });
    metadata.functions.push(AotFunctionMetadata {
        local_function_index: 2,
        wasm_function_index: 3,
        type_index: 0,
        executable_offset: 32,
        executable_len: 16,
    });
    let exports = module_exports("guest", &metadata);
    assert_eq!(exports.len(), 2);
    assert_eq!(exports[0].wasm_function_index, 1);
    assert_eq!(exports[0].symbol_name, "razero_cabi_guest_function_1");
    assert_eq!(exports[1].wasm_function_index, 3);
    assert_eq!(exports[1].params, vec![VALUE_TYPE_I32, VALUE_TYPE_I32]);
    assert_eq!(exports[1].module_name, "guest");
}

#[test]
fn hello_host_handler_source_names_its_symbol() {
    let source = build_hello_host_handler_source("razero_hello_host_env_print_handler");
    assert!(source.starts_with("#include <stdint.h>\n"));
    assert!(source.contains("int razero_hello_host_env_print_handler(unsigned char* module_context,"));
    assert!(source.contains("fwrite(guest_memory + ptr, 1u, len, stdout);"));
}

#[test]
fn link_modules_keep_their_parts() {
    let module = NativeLinkModule::new("guest".to_string(), vec![1], vec![2, 3]);
    assert_eq!(module.name, "guest");
    assert_eq!(module.object_bytes, vec![1]);
    let artifact = RelocatableObjectArtifact { object_bytes: vec![4], metadata_sidecar_bytes: vec![5] };
    let module = NativeLinkModule::from_artifact("other".to_string(), artifact);
    assert_eq!(module.object_bytes, vec![4]);
    assert_eq!(module.metadata_sidecar_bytes, vec![5]);
    assert_eq!(NativeLinkError::new("boom".to_string()).message(), "boom");
}
