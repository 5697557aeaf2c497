use object::{Object, ObjectSection, ObjectSymbol};

use razero_compiler::aot::{
    AotCompiledMetadata, AotDataSegmentMetadata, AotExecutionContextMetadata, AotExportMetadata,
    AotFunctionMetadata, AotFunctionTypeMetadata, AotImportDescMetadata, AotImportMetadata,
    AotMemoryMetadata, AotModuleContextMetadata, AotModuleShapeMetadata, AotTarget,
    AotTargetArchitecture, AotTargetOperatingSystem, EXTERN_TYPE_FUNC, VALUE_TYPE_I32,
    VALUE_TYPE_V128,
};
use razero_compiler::c_source::{build_wrapper_source, specs_fit_exec, ModuleSpec};
use razero_compiler::hello_host::{
    build_hello_host_source, host_dispatch_case_source, import_base_fits_exec, HostCallAbi,
};
use razero_compiler::link_objects::{
    build_host_import_object, build_named_preamble_object, build_preamble_object, layout_entry_preambles,
};
use razero_compiler::linker::{
    hello_host_reads_state_exec, native_packaging_target, offset_reads_state_exec, HelloHostSpec, NativeLinkError, NativeLinkModule, NativePackagingTarget,
    PackagedHostImportSpec,
};
use razero_compiler::native_link::{
    hello_host_link_is_safe, plan_hello_host_executable,
    plan_native_executable,
};
use razero_compiler::package::PackagedHostImportDescriptor;

const ABI: HostCallAbi = HostCallAbi {
    call_go_function_exit_code: 6,
    exit_code_mask: 0xff,
    function_instance_size: 24,
};

fn x86_target() -> Result<NativePackagingTarget, NativeLinkError> {
    native_packaging_target(true, AotTargetArchitecture::X86_64)
}

fn arm_target() -> NativePackagingTarget {
    native_packaging_target(true, AotTargetArchitecture::Aarch64).unwrap()
}

fn function_type(params: &[u8], results: &[u8]) -> AotFunctionTypeMetadata {
    AotFunctionTypeMetadata {
        params: params.to_vec(),
        results: results.to_vec(),
        param_num_in_u64: params.len(),
        result_num_in_u64: results.len(),
    }
}

fn linux_x86() -> AotTarget {
    AotTarget {
        operating_system: AotTargetOperatingSystem::Linux,
        architecture: AotTargetArchitecture::X86_64,
    }
}

/// A module with one exported `(i32) -> i32` function.
fn cabi_metadata() -> AotCompiledMetadata {
    AotCompiledMetadata {
        target: linux_x86(),
        execution_context: AotExecutionContextMetadata { size: 8, ..AotExecutionContextMetadata::default() },
        types: vec![function_type(&[VALUE_TYPE_I32], &[VALUE_TYPE_I32])],
        functions: vec![AotFunctionMetadata {
            local_function_index: 0,
            wasm_function_index: 0,
            type_index: 0,
            executable_offset: 0,
            executable_len: 4,
        }],
        ..AotCompiledMetadata::default()
    }
}

fn hello_host_metadata() -> AotCompiledMetadata {
    AotCompiledMetadata {
        module_id: [0xab; 32],
        target: linux_x86(),
        execution_context: AotExecutionContextMetadata {
            size: 1192,
            exit_code_offset: 0,
            stack_pointer_before_go_call_offset: 56,
            go_call_return_address_offset: 48,
            frame_pointer_before_go_call_offset: 1152,
            fuel_offset: 1184,
        },
        module_context: AotModuleContextMetadata {
            total_size: 64,
            local_memory_begin: 8,
            imported_functions_begin: 24,
            ..AotModuleContextMetadata::default()
        },
        module_shape: AotModuleShapeMetadata {
            import_function_count: 1,
            local_function_count: 1,
            has_local_memory: true,
            has_any_memory: true,
            data_segment_count: 1,
            ..AotModuleShapeMetadata::default()
        },
        types: vec![function_type(&[VALUE_TYPE_I32, VALUE_TYPE_I32], &[]), function_type(&[], &[])],
        imports: vec![AotImportMetadata {
            ty: EXTERN_TYPE_FUNC,
            module: "env".to_string(),
            name: "print".to_string(),
            desc: AotImportDescMetadata::Func(0),
            index_per_type: 0,
        }],
        exports: vec![AotExportMetadata { name: "run".to_string(), ty: EXTERN_TYPE_FUNC, index: 1 }],
        functions: vec![AotFunctionMetadata {
            local_function_index: 0,
            wasm_function_index: 1,
            type_index: 1,
            executable_offset: 0,
            executable_len: 16,
        }],
        memory: Some(AotMemoryMetadata { min: 1, cap: 1, max: 1, is_max_encoded: true, is_shared: false }),
        data_segments: vec![AotDataSegmentMetadata {
            offset_expression: vec![0x41, 0x08, 0x0b],
            init: b"hi".to_vec(),
            passive: false,
        }],
        ..AotCompiledMetadata::default()
    }
}

fn module(name: &str) -> NativeLinkModule {
    NativeLinkModule::new(name.to_string(), vec![1, 2, 3], vec![9, 8])
}

#[test]
fn build_wrapper_source_switches_to_aarch64_entrypoint_symbols() {
    let source = build_wrapper_source(
        &[ModuleSpec {
            sanitized_name: "guest".to_string(),
            metadata: AotCompiledMetadata {
                types: vec![AotFunctionTypeMetadata {
                    params: vec![VALUE_TYPE_I32],
                    results: vec![VALUE_TYPE_I32],
                    param_num_in_u64: 1,
                    result_num_in_u64: 1,
                }],
                functions: vec![AotFunctionMetadata {
                    local_function_index: 0,
                    wasm_function_index: 0,
                    type_index: 0,
                    executable_offset: 0,
                    executable_len: 4,
                }],
                ..AotCompiledMetadata::default()
            },
        }],
        64,
        arm_target(),
    )
    .unwrap();

    assert!(source.contains("razero_arm64_entrypoint"));
    assert!(!source.contains("razero_amd64_entrypoint"));
}

#[test]
fn wrapper_source_offsets_fit_for_small_contexts() {
    let specs = vec![ModuleSpec { sanitized_name: "m".to_string(), metadata: cabi_metadata() }];
    assert!(specs_fit_exec(&specs));
    let mut big = cabi_metadata();
    big.module_context.local_memory_begin = i32::MAX - 4;
    let specs = vec![ModuleSpec { sanitized_name: "m".to_string(), metadata: big }];
    assert!(!specs_fit_exec(&specs));
}

#[test]
fn native_link_plan_reports_an_unsupported_host() {
    let target = native_packaging_target(false, AotTargetArchitecture::X86_64);
    let err = plan_native_executable(&[module("a")], vec![Ok(cabi_metadata())], target).err().unwrap();
    assert_eq!(
        err.message(),
        "native executable packaging currently requires a Linux/x86_64 or Linux/aarch64 host"
    );
}

#[test]
fn native_link_plan_reports_metadata_that_did_not_decode() {
    let err = plan_native_executable(
        &[module("a"), module("b")],
        vec![Ok(cabi_metadata()), Err("bad sidecar".to_string())],
        x86_target(),
    )
    .err()
    .unwrap();
    assert_eq!(err.message(), "bad sidecar");
}

#[test]
fn native_link_plan_rejects_a_module_for_another_architecture() {
    let mut metadata = cabi_metadata();
    metadata.target.architecture = AotTargetArchitecture::Aarch64;
    let err = plan_native_executable(&[module("arm")], vec![Ok(metadata)], x86_target()).err().unwrap();
    assert_eq!(
        err.message(),
        "module 'arm' targets aarch64, but this linker instance packages x86_64 artifacts"
    );
}

#[test]
fn native_link_plan_names_objects_and_collects_exports() {
    let mut second = cabi_metadata();
    second.execution_context.size = 40;
    let plan = plan_native_executable(
        &[module("first mod"), module("2nd")],
        vec![Ok(cabi_metadata()), Ok(second)],
        x86_target(),
    )
    .unwrap();
    assert_eq!(plan.object_file_names, vec!["0-first_mod.o".to_string(), "1-_2nd.o".to_string()]);
    assert_eq!(plan.execution_context_size, 40);
    assert_eq!(plan.module_specs.len(), 2);
    assert_eq!(plan.module_specs[0].sanitized_name, "first_mod");
    assert_eq!(plan.module_specs[1].sanitized_name, "_2nd");
    assert_eq!(plan.cabi_exports.len(), 2);
    assert_eq!(plan.cabi_exports[0].module_name, "first_mod");
    assert_eq!(plan.cabi_exports[0].symbol_name, "razero_cabi_first_mod_function_0");
    assert_eq!(plan.cabi_exports[1].module_name, "_2nd");
    assert_eq!(plan.metadata_bundle.modules.len(), 2);
    assert_eq!(plan.metadata_bundle.modules[0].module_name, "first mod");
    assert_eq!(plan.metadata_bundle.modules[0].metadata_sidecar_bytes, vec![9, 8]);
    assert!(plan.metadata_bundle.host_imports.is_empty());
}

#[test]
fn native_link_plan_keeps_at_least_sixteen_context_bytes() {
    let plan = plan_native_executable(&[module("a")], vec![Ok(cabi_metadata())], x86_target()).unwrap();
    assert_eq!(plan.execution_context_size, 16);
}

#[test]
fn entry_stems_follow_the_architecture() {
    assert_eq!(x86_target().unwrap().entry_stem(), "razero-amd64-entry");
    assert_eq!(arm_target().entry_stem(), "razero-arm64-entry");
}

fn import_spec(index: u32) -> PackagedHostImportSpec {
    PackagedHostImportSpec {
        descriptor: PackagedHostImportDescriptor {
            guest_module_name: "guest".to_string(),
            import_module: "env".to_string(),
            import_name: "print".to_string(),
            function_import_index: index,
            type_index: 0,
            host_symbol_name: "razero_hello_host_env_print_handler".to_string(),
        },
        import_type: AotFunctionTypeMetadata {
            params: vec![VALUE_TYPE_I32, VALUE_TYPE_I32],
            results: vec![],
            param_num_in_u64: 2,
            result_num_in_u64: 0,
        },
        trampoline_symbol: format!("razero_import_function_{index}_env_print"),
    }
}

#[test]
fn host_dispatch_case_checks_the_stack_then_calls_the_handler() {
    let source = host_dispatch_case_source(&import_spec(3), 65536);
    assert_eq!(
        source,
        "                    case 3u:\n                        if (stack_word_count < 2u) { fprintf(stderr, \"host import env.print stack is too small\\n\"); return 4; }\n                        if (razero_hello_host_env_print_handler(guest_module_ctx.bytes, guest_memory, (size_t)65536, stack_words, stack_word_count) != 0) { fprintf(stderr, \"host import env.print failed\\n\"); return 5; }\n                        break;\n"
    );
}

#[test]
fn host_dispatch_case_needs_at_least_one_slot() {
    let mut spec = import_spec(0);
    spec.import_type.param_num_in_u64 = 0;
    let source = host_dispatch_case_source(&spec, 1);
    assert!(source.contains("if (stack_word_count < 1u)"));
}

#[test]
fn hello_host_source_lays_out_memory_context_and_dispatch() {
    let metadata = hello_host_metadata();
    let spec = HelloHostSpec::from_metadata("guest", &metadata, x86_target()).unwrap();
    let source = build_hello_host_source(&metadata, &spec, "razero_hello_host_run_preamble", x86_target().unwrap(), ABI);
    assert!(source.starts_with("#include <stdint.h>\n#include <stdio.h>\n#include <string.h>\n\nextern void razero_amd64_entrypoint("));
    assert!(source.contains("extern void razero_amd64_after_go_function_call_entrypoint(const unsigned char*, uintptr_t, uintptr_t, uintptr_t);\n"));
    assert!(source.contains("extern const unsigned char razero_import_function_0_env_print[];\n"));
    assert!(source.contains("enum { RAZERO_EXIT_OK = 0u, RAZERO_EXIT_CALL_GO_FUNCTION = 6u, RAZERO_EXIT_MASK = 255u };\n\n"));
    assert!(source.contains("unsigned char bytes[1192]; } razero_link_exec_ctx_t;\n"));
    assert!(source.contains("static unsigned char guest_memory[65536] = {0};\n"));
    assert!(source.contains("unsigned char bytes[64]; } guest_module_ctx = {0};\n\n"));
    assert!(source.contains("static const unsigned char guest_data_0[2] = {0x68, 0x69};\n"));
    assert!(source.contains("    memcpy(guest_memory + 8, guest_data_0, 2);\n"));
    assert!(source.contains("    store_u64(guest_module_ctx.bytes, 8, (uint64_t)(uintptr_t)guest_memory);\n    store_u64(guest_module_ctx.bytes, 16, (uint64_t)65536);\n"));
    assert!(source.contains("    store_u64(guest_module_ctx.bytes, 24, (uint64_t)(uintptr_t)razero_import_function_0_env_print);\n    store_u64(guest_module_ctx.bytes, 32, 0);\n    store_u64(guest_module_ctx.bytes, 40, 0);\n"));
    assert!(source.contains("uint32_t exit_code = read_u32(exec_ctx.bytes, 0);"));
    assert!(source.contains("(uintptr_t)read_u64(exec_ctx.bytes, 56);"));
    assert!(source.contains("(uintptr_t)read_u64(exec_ctx.bytes, 1152);"));
    assert!(source.contains("                    case 0u:\n"));
    assert!(source.ends_with("                return 6;\n        }\n    }\n}\n"));
}

#[test]
fn hello_host_source_prints_negative_offsets_with_a_sign() {
    let mut metadata = hello_host_metadata();
    metadata.module_context.local_memory_begin = -16;
    let spec = HelloHostSpec::from_metadata("guest", &metadata, x86_target()).unwrap();
    let source = build_hello_host_source(&metadata, &spec, "p", x86_target().unwrap(), ABI);
    assert!(source.contains("store_u64(guest_module_ctx.bytes, -16, (uint64_t)(uintptr_t)guest_memory);\n    store_u64(guest_module_ctx.bytes, -8, (uint64_t)65536);\n"));
}

#[test]
fn import_base_fits_checks_i32_offsets() {
    let metadata = hello_host_metadata();
    assert!(import_base_fits_exec(&metadata, ABI, 0));
    assert!(import_base_fits_exec(&metadata, ABI, 1000));
    assert!(!import_base_fits_exec(&metadata, ABI, 100_000_000));
}

#[test]
fn hello_host_plan_builds_the_bundle_and_sources() {
    let guest = module("guest");
    let plan = plan_hello_host_executable(&guest, Ok(hello_host_metadata()), x86_target(), ABI).unwrap();
    assert_eq!(plan.preamble_symbol, "razero_hello_host_run_preamble");
    assert_eq!(plan.metadata_bundle.modules.len(), 1);
    assert_eq!(plan.metadata_bundle.modules[0].module_name, "guest");
    assert_eq!(plan.metadata_bundle.modules[0].metadata_sidecar_bytes, vec![9, 8]);
    assert_eq!(plan.metadata_bundle.host_imports.len(), 1);
    assert_eq!(plan.metadata_bundle.host_imports[0].host_symbol_name, "razero_hello_host_env_print_handler");
    assert!(plan.driver_source.contains("razero_hello_host_run_preamble"));
    assert!(plan.handler_source.contains("int razero_hello_host_env_print_handler("));
}

#[test]
fn hello_host_plan_reports_errors_in_order() {
    let guest = module("guest");
    let unsupported = native_packaging_target(false, AotTargetArchitecture::X86_64);
    let err = plan_hello_host_executable(&guest, Err("bad".to_string()), unsupported, ABI).err().unwrap();
    assert_eq!(
        err.message(),
        "native executable packaging currently requires a Linux/x86_64 or Linux/aarch64 host"
    );
    let err = plan_hello_host_executable(&guest, Err("bad".to_string()), x86_target(), ABI).err().unwrap();
    assert_eq!(err.message(), "bad");
    let mut no_memory = hello_host_metadata();
    no_memory.memory = None;
    let err = plan_hello_host_executable(&guest, Ok(no_memory), x86_target(), ABI).err().unwrap();
    assert_eq!(err.message(), "hello-host guest must define one local memory");
}

#[test]
fn hello_host_link_safety_rejects_global_data_offsets() {
    let guest = module("guest");
    let mut metadata = hello_host_metadata();
    assert!(!hello_host_reads_state_exec(&metadata, x86_target()));
    assert!(hello_host_link_is_safe(&guest, &Ok(metadata.clone()), &x86_target(), ABI));
    metadata.data_segments[0].offset_expression = vec![0x23, 0x00, 0x0b];
    assert!(hello_host_reads_state_exec(&metadata, x86_target()));
    assert!(!hello_host_link_is_safe(&guest, &Ok(metadata), &x86_target(), ABI));
}

#[test]
fn hello_host_errors_before_a_global_data_offset_stand() {
    let mut metadata = hello_host_metadata();
    metadata.data_segments.insert(
        0,
        AotDataSegmentMetadata { offset_expression: vec![], init: vec![], passive: true },
    );
    metadata.data_segments[1].offset_expression = vec![0x23, 0x00, 0x0b];
    assert!(!hello_host_reads_state_exec(&metadata, x86_target()));
    let err = HelloHostSpec::from_metadata("guest", &metadata, x86_target()).err().unwrap();
    assert_eq!(err.message(), "hello-host linker does not support passive data segments");
}

#[test]
fn offsets_that_read_state_are_recognized() {
    assert!(offset_reads_state_exec(&[0x23, 0x00, 0x0b]));
    assert!(offset_reads_state_exec(&[0xd2, 0x01, 0x0b]));
    assert!(!offset_reads_state_exec(&[0x41, 0x08, 0x0b]));
    assert!(!offset_reads_state_exec(&[0x23, 0x80]));
}

fn parse_symbols(bytes: &[u8]) -> Vec<(String, u64, u64)> {
    let file = object::File::parse(bytes).unwrap();
    let mut symbols: Vec<(String, u64, u64)> = file
        .symbols()
        .filter(|symbol| symbol.is_definition() && !symbol.name().unwrap().is_empty())
        .map(|symbol| (symbol.name().unwrap().to_string(), symbol.address(), symbol.size()))
        .collect();
    symbols.sort();
    symbols
}

fn text_bytes(bytes: &[u8]) -> Vec<u8> {
    let file = object::File::parse(bytes).unwrap();
    file.section_by_name(".text").unwrap().data().unwrap().to_vec()
}

#[test]
fn preamble_object_places_each_preamble_at_an_aligned_offset() {
    let mut metadata = cabi_metadata();
    metadata.types = vec![
        function_type(&[VALUE_TYPE_I32], &[VALUE_TYPE_I32]),
        function_type(&[VALUE_TYPE_V128], &[]),
        function_type(&[], &[]),
    ];
    let specs = vec![ModuleSpec { sanitized_name: "m".to_string(), metadata }];
    let preambles = vec![vec![vec![0xaa; 5], vec![0xbb; 3], vec![0xcc; 2]]];
    let bytes = build_preamble_object(&specs, &preambles, x86_target().unwrap()).unwrap();
    assert_eq!(&bytes[..4], b"\x7fELF");
    assert_eq!(
        parse_symbols(&bytes),
        vec![
            ("razero_cabi_m_type_0_preamble".to_string(), 0, 5),
            ("razero_cabi_m_type_2_preamble".to_string(), 16, 2),
        ]
    );
    let mut text = vec![0xaa; 5];
    text.extend(vec![0; 11]);
    text.extend(vec![0xcc; 2]);
    assert_eq!(text_bytes(&bytes), text);
}

#[test]
fn named_preamble_object_trims_the_void_frame_setup() {
    let ty = function_type(&[], &[]);
    let preamble = vec![0x55, 0x48, 0x89, 0xe5, 0xc3];
    let bytes = build_named_preamble_object("run_pre", &ty, preamble.clone(), x86_target().unwrap()).unwrap();
    assert_eq!(parse_symbols(&bytes), vec![("run_pre".to_string(), 0, 1)]);
    assert_eq!(text_bytes(&bytes), vec![0xc3]);
    let bytes = build_named_preamble_object("run_pre", &ty, preamble.clone(), arm_target()).unwrap();
    assert_eq!(parse_symbols(&bytes), vec![("run_pre".to_string(), 0, 5)]);
    let typed = function_type(&[VALUE_TYPE_I32], &[]);
    let bytes = build_named_preamble_object("run_pre", &typed, preamble, x86_target().unwrap()).unwrap();
    assert_eq!(text_bytes(&bytes), vec![0x55, 0x48, 0x89, 0xe5, 0xc3]);
}

#[test]
fn host_import_object_defines_each_trampoline() {
    let imports = vec![import_spec(0), import_spec(1)];
    let trampolines = vec![vec![0x90; 20], vec![0xc3]];
    let bytes = build_host_import_object(&imports, &trampolines, x86_target().unwrap()).unwrap();
    assert_eq!(
        parse_symbols(&bytes),
        vec![
            ("razero_import_function_0_env_print".to_string(), 0, 20),
            ("razero_import_function_1_env_print".to_string(), 32, 1),
        ]
    );
}

#[test]
fn entry_preambles_start_at_aligned_offsets() {
    let (text, offsets) = layout_entry_preambles(&vec![vec![1; 5], vec![2; 3], vec![]]);
    assert_eq!(offsets, vec![0, 16, 32]);
    let mut expected = vec![1; 5];
    expected.extend(vec![0; 11]);
    expected.extend(vec![2; 3]);
    expected.extend(vec![0; 13]);
    assert_eq!(text, expected);
}
