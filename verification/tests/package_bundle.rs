use razero_compiler::package::{
    deserialize_native_package_metadata_bundle, serialize_native_package_metadata_bundle,
    NativePackageMetadataBundle, NativePackageMetadataEntry, PackagedHostImportDescriptor,
};

const NATIVE_PACKAGE_MAGIC: &[u8; 8] = b"RZPKG001";

fn sample_package_metadata_bundle() -> NativePackageMetadataBundle {
    NativePackageMetadataBundle {
        modules: vec![NativePackageMetadataEntry {
            module_name: "guest".to_string(),
            metadata_sidecar_bytes: vec![1, 2, 3],
        }],
        host_imports: Vec::new(),
    }
}

#[test]
fn package_metadata_bundle_round_trips() {
        let bundle = NativePackageMetadataBundle {
            modules: vec![
                NativePackageMetadataEntry {
                    module_name: "guest-a".to_string(),
                    metadata_sidecar_bytes: vec![1, 2, 3, 4],
                },
                NativePackageMetadataEntry {
                    module_name: "guest-b".to_string(),
                    metadata_sidecar_bytes: vec![5, 6, 7],
                },
            ],
            host_imports: vec![
                PackagedHostImportDescriptor {
                    guest_module_name: "guest-a".to_string(),
                    import_module: "env".to_string(),
                    import_name: "inc".to_string(),
                    function_import_index: 0,
                    type_index: 1,
                    host_symbol_name: "env_inc_handler".to_string(),
                },
                PackagedHostImportDescriptor {
                    guest_module_name: "guest-b".to_string(),
                    import_module: "math".to_string(),
                    import_name: "double".to_string(),
                    function_import_index: 1,
                    type_index: 2,
                    host_symbol_name: "math_double_handler".to_string(),
                },
            ],
        };
        let encoded = serialize_native_package_metadata_bundle(&bundle);
        assert!(encoded.starts_with(NATIVE_PACKAGE_MAGIC));
        let decoded = deserialize_native_package_metadata_bundle(&encoded).unwrap();
        assert_eq!(decoded, bundle);
    }

#[test]
fn package_metadata_bundle_round_trips_with_empty_metadata_sidecar() {
        let bundle = NativePackageMetadataBundle {
            modules: vec![NativePackageMetadataEntry {
                module_name: "guest".to_string(),
                metadata_sidecar_bytes: Vec::new(),
            }],
            host_imports: vec![PackagedHostImportDescriptor {
                guest_module_name: "guest".to_string(),
                import_module: "env".to_string(),
                import_name: "inc".to_string(),
                function_import_index: 0,
                type_index: 1,
                host_symbol_name: "env_inc_handler".to_string(),
            }],
        };

        let encoded = serialize_native_package_metadata_bundle(&bundle);
        let decoded = deserialize_native_package_metadata_bundle(&encoded).unwrap();
        assert_eq!(decoded, bundle);
    }

#[test]
fn package_metadata_bundle_round_trips_with_empty_module_name() {
        let bundle = NativePackageMetadataBundle {
            modules: vec![NativePackageMetadataEntry {
                module_name: String::new(),
                metadata_sidecar_bytes: vec![1, 2, 3],
            }],
            host_imports: Vec::new(),
        };

        let encoded = serialize_native_package_metadata_bundle(&bundle);
        let decoded = deserialize_native_package_metadata_bundle(&encoded).unwrap();
        assert_eq!(decoded, bundle);
    }

#[test]
fn package_metadata_bundle_round_trips_with_empty_guest_module_name() {
        let bundle = NativePackageMetadataBundle {
            modules: vec![NativePackageMetadataEntry {
                module_name: "guest".to_string(),
                metadata_sidecar_bytes: vec![1, 2, 3],
            }],
            host_imports: vec![PackagedHostImportDescriptor {
                guest_module_name: String::new(),
                import_module: "env".to_string(),
                import_name: "inc".to_string(),
                function_import_index: 0,
                type_index: 1,
                host_symbol_name: "env_inc_handler".to_string(),
            }],
        };

        let encoded = serialize_native_package_metadata_bundle(&bundle);
        let decoded = deserialize_native_package_metadata_bundle(&encoded).unwrap();
        assert_eq!(decoded, bundle);
    }

#[test]
fn package_metadata_bundle_round_trips_with_empty_import_module() {
        let bundle = NativePackageMetadataBundle {
            modules: vec![NativePackageMetadataEntry {
                module_name: "guest".to_string(),
                metadata_sidecar_bytes: vec![1, 2, 3],
            }],
            host_imports: vec![PackagedHostImportDescriptor {
                guest_module_name: "guest".to_string(),
                import_module: String::new(),
                import_name: "inc".to_string(),
                function_import_index: 0,
                type_index: 1,
                host_symbol_name: "env_inc_handler".to_string(),
            }],
        };

        let encoded = serialize_native_package_metadata_bundle(&bundle);
        let decoded = deserialize_native_package_metadata_bundle(&encoded).unwrap();
        assert_eq!(decoded, bundle);
    }

#[test]
fn package_metadata_bundle_round_trips_with_empty_import_name() {
        let bundle = NativePackageMetadataBundle {
            modules: vec![NativePackageMetadataEntry {
                module_name: "guest".to_string(),
                metadata_sidecar_bytes: vec![1, 2, 3],
            }],
            host_imports: vec![PackagedHostImportDescriptor {
                guest_module_name: "guest".to_string(),
                import_module: "env".to_string(),
                import_name: String::new(),
                function_import_index: 0,
                type_index: 1,
                host_symbol_name: "env_inc_handler".to_string(),
            }],
        };

        let encoded = serialize_native_package_metadata_bundle(&bundle);
        let decoded = deserialize_native_package_metadata_bundle(&encoded).unwrap();
        assert_eq!(decoded, bundle);
    }

#[test]
fn package_metadata_bundle_round_trips_with_empty_host_symbol_name() {
        let bundle = NativePackageMetadataBundle {
            modules: vec![NativePackageMetadataEntry {
                module_name: "guest".to_string(),
                metadata_sidecar_bytes: vec![1, 2, 3],
            }],
            host_imports: vec![PackagedHostImportDescriptor {
                guest_module_name: "guest".to_string(),
                import_module: "env".to_string(),
                import_name: "inc".to_string(),
                function_import_index: 0,
                type_index: 1,
                host_symbol_name: String::new(),
            }],
        };

        let encoded = serialize_native_package_metadata_bundle(&bundle);
        let decoded = deserialize_native_package_metadata_bundle(&encoded).unwrap();
        assert_eq!(decoded, bundle);
    }

#[test]
fn package_metadata_bundle_round_trips_with_max_function_import_index() {
        let bundle = NativePackageMetadataBundle {
            modules: vec![NativePackageMetadataEntry {
                module_name: "guest".to_string(),
                metadata_sidecar_bytes: vec![1, 2, 3],
            }],
            host_imports: vec![PackagedHostImportDescriptor {
                guest_module_name: "guest".to_string(),
                import_module: "env".to_string(),
                import_name: "inc".to_string(),
                function_import_index: u32::MAX,
                type_index: 1,
                host_symbol_name: "env_inc_handler".to_string(),
            }],
        };

        let encoded = serialize_native_package_metadata_bundle(&bundle);
        let decoded = deserialize_native_package_metadata_bundle(&encoded).unwrap();
        assert_eq!(decoded, bundle);
    }

#[test]
fn package_metadata_bundle_round_trips_with_max_type_index() {
        let bundle = NativePackageMetadataBundle {
            modules: vec![NativePackageMetadataEntry {
                module_name: "guest".to_string(),
                metadata_sidecar_bytes: vec![1, 2, 3],
            }],
            host_imports: vec![PackagedHostImportDescriptor {
                guest_module_name: "guest".to_string(),
                import_module: "env".to_string(),
                import_name: "inc".to_string(),
                function_import_index: 0,
                type_index: u32::MAX,
                host_symbol_name: "env_inc_handler".to_string(),
            }],
        };

        let encoded = serialize_native_package_metadata_bundle(&bundle);
        let decoded = deserialize_native_package_metadata_bundle(&encoded).unwrap();
        assert_eq!(decoded, bundle);
    }

#[test]
fn package_metadata_bundle_round_trips_with_multiple_modules_and_boundary_indices() {
        let bundle = NativePackageMetadataBundle {
            modules: vec![
                NativePackageMetadataEntry {
                    module_name: "guest-a".to_string(),
                    metadata_sidecar_bytes: vec![1, 2, 3],
                },
                NativePackageMetadataEntry {
                    module_name: "guest-b".to_string(),
                    metadata_sidecar_bytes: vec![4, 5, 6],
                },
            ],
            host_imports: vec![
                PackagedHostImportDescriptor {
                    guest_module_name: "guest-a".to_string(),
                    import_module: "env".to_string(),
                    import_name: "low".to_string(),
                    function_import_index: 0,
                    type_index: u32::MAX,
                    host_symbol_name: "env_low_handler".to_string(),
                },
                PackagedHostImportDescriptor {
                    guest_module_name: "guest-b".to_string(),
                    import_module: "math".to_string(),
                    import_name: "high".to_string(),
                    function_import_index: u32::MAX,
                    type_index: 0,
                    host_symbol_name: "math_high_handler".to_string(),
                },
            ],
        };

        let encoded = serialize_native_package_metadata_bundle(&bundle);
        let decoded = deserialize_native_package_metadata_bundle(&encoded).unwrap();
        assert_eq!(decoded, bundle);
    }

#[test]
fn package_metadata_bundle_round_trips_with_three_modules_varying_sidecars() {
        let bundle = NativePackageMetadataBundle {
            modules: vec![
                NativePackageMetadataEntry {
                    module_name: "guest-a".to_string(),
                    metadata_sidecar_bytes: Vec::new(),
                },
                NativePackageMetadataEntry {
                    module_name: "guest-b".to_string(),
                    metadata_sidecar_bytes: (0u8..100).collect(),
                },
                NativePackageMetadataEntry {
                    module_name: "guest-c".to_string(),
                    metadata_sidecar_bytes: vec![0xff],
                },
            ],
            host_imports: Vec::new(),
        };

        let encoded = serialize_native_package_metadata_bundle(&bundle);
        let decoded = deserialize_native_package_metadata_bundle(&encoded).unwrap();
        assert_eq!(decoded, bundle);
    }

#[test]
fn package_metadata_bundle_round_trips_with_four_imports_and_boundary_mix() {
        let bundle = NativePackageMetadataBundle {
            modules: vec![
                NativePackageMetadataEntry {
                    module_name: "guest-a".to_string(),
                    metadata_sidecar_bytes: vec![1, 2, 3],
                },
                NativePackageMetadataEntry {
                    module_name: "guest-b".to_string(),
                    metadata_sidecar_bytes: vec![4, 5, 6, 7],
                },
            ],
            host_imports: vec![
                PackagedHostImportDescriptor {
                    guest_module_name: "guest-a".to_string(),
                    import_module: "env".to_string(),
                    import_name: "zero".to_string(),
                    function_import_index: 0,
                    type_index: 0,
                    host_symbol_name: "env_zero_handler".to_string(),
                },
                PackagedHostImportDescriptor {
                    guest_module_name: "guest-a".to_string(),
                    import_module: "env".to_string(),
                    import_name: "max".to_string(),
                    function_import_index: u32::MAX,
                    type_index: u32::MAX,
                    host_symbol_name: "env_max_handler".to_string(),
                },
                PackagedHostImportDescriptor {
                    guest_module_name: "guest-b".to_string(),
                    import_module: "math".to_string(),
                    import_name: "mid".to_string(),
                    function_import_index: 1,
                    type_index: 100,
                    host_symbol_name: "math_mid_handler".to_string(),
                },
                PackagedHostImportDescriptor {
                    guest_module_name: "guest-b".to_string(),
                    import_module: "math".to_string(),
                    import_name: "near-max".to_string(),
                    function_import_index: u32::MAX - 1,
                    type_index: 1,
                    host_symbol_name: "math_near_max_handler".to_string(),
                },
            ],
        };

        let encoded = serialize_native_package_metadata_bundle(&bundle);
        let decoded = deserialize_native_package_metadata_bundle(&encoded).unwrap();
        assert_eq!(decoded, bundle);
    }

#[test]
fn package_metadata_bundle_rejects_invalid_magic_number() {
        let bundle = sample_package_metadata_bundle();
        let mut encoded = serialize_native_package_metadata_bundle(&bundle);
        encoded[..NATIVE_PACKAGE_MAGIC.len()].copy_from_slice(b"BADMAGIC");

        let err = deserialize_native_package_metadata_bundle(&encoded).unwrap_err();
        assert_eq!(
            err.message(),
            "native package metadata: invalid magic number"
        );
    }

#[test]
fn package_metadata_bundle_rejects_truncated_magic_header() {
        let bundle = sample_package_metadata_bundle();
        let mut encoded = serialize_native_package_metadata_bundle(&bundle);
        encoded.truncate(4);

        let err = deserialize_native_package_metadata_bundle(&encoded).unwrap_err();
        assert_eq!(
            err.message(),
            "native package metadata: invalid header length"
        );
    }

#[test]
fn package_metadata_bundle_rejects_truncated_module_count() {
        let bundle = sample_package_metadata_bundle();
        let mut encoded = serialize_native_package_metadata_bundle(&bundle);
        encoded.truncate(NATIVE_PACKAGE_MAGIC.len() + 2);

        let err = deserialize_native_package_metadata_bundle(&encoded).unwrap_err();
        assert_eq!(
            err.message(),
            "native package metadata: invalid u32 field"
        );
    }

#[test]
fn package_metadata_bundle_rejects_truncated_module_name_length() {
        let bundle = NativePackageMetadataBundle {
            modules: vec![NativePackageMetadataEntry {
                module_name: "guest".to_string(),
                metadata_sidecar_bytes: vec![1, 2, 3],
            }],
            host_imports: Vec::new(),
        };
        let mut encoded = serialize_native_package_metadata_bundle(&bundle);
        let truncate_at = NATIVE_PACKAGE_MAGIC.len() + 4 + 2;
        encoded.truncate(truncate_at);

        let err = deserialize_native_package_metadata_bundle(&encoded).unwrap_err();
        assert_eq!(
            err.message(),
            "native package metadata: invalid u32 field"
        );
    }

#[test]
fn package_metadata_bundle_rejects_truncated_module_name_bytes() {
        let bundle = NativePackageMetadataBundle {
            modules: vec![NativePackageMetadataEntry {
                module_name: "guest".to_string(),
                metadata_sidecar_bytes: vec![1, 2, 3],
            }],
            host_imports: Vec::new(),
        };
        let mut encoded = serialize_native_package_metadata_bundle(&bundle);
        let truncate_at =
            NATIVE_PACKAGE_MAGIC.len() + 4 + 4 + bundle.modules[0].module_name.len() - 2;
        encoded.truncate(truncate_at);

        let err = deserialize_native_package_metadata_bundle(&encoded).unwrap_err();
        assert_eq!(
            err.message(),
            "native package metadata: invalid module name"
        );
    }

#[test]
fn package_metadata_bundle_rejects_invalid_utf8_in_module_name() {
        let bundle = NativePackageMetadataBundle {
            modules: vec![NativePackageMetadataEntry {
                module_name: "guest".to_string(),
                metadata_sidecar_bytes: vec![1, 2, 3],
            }],
            host_imports: Vec::new(),
        };
        let mut encoded = serialize_native_package_metadata_bundle(&bundle);
        let module_name_offset = NATIVE_PACKAGE_MAGIC.len() + 4 + 4;
        encoded[module_name_offset] = 0xff;

        let err = deserialize_native_package_metadata_bundle(&encoded).unwrap_err();
        assert_eq!(
            err.message(),
            "native package metadata: invalid module name: invalid UTF-8: invalid utf-8 sequence of 1 bytes from index 0"
        );
    }

#[test]
fn package_metadata_bundle_rejects_truncated_module_sidecar() {
        let bundle = sample_package_metadata_bundle();
        let mut encoded = serialize_native_package_metadata_bundle(&bundle);
        let truncate_at = NATIVE_PACKAGE_MAGIC.len()
            + 4
            + 4
            + bundle.modules[0].module_name.len()
            + 8
            + bundle.modules[0].metadata_sidecar_bytes.len()
            - 1;
        encoded.truncate(truncate_at);

        let err = deserialize_native_package_metadata_bundle(&encoded).unwrap_err();
        assert_eq!(
            err.message(),
            "native package metadata: invalid module sidecar"
        );
    }

#[test]
fn package_metadata_bundle_rejects_truncated_module_sidecar_length_partial() {
        let bundle = sample_package_metadata_bundle();
        let mut encoded = serialize_native_package_metadata_bundle(&bundle);
        let truncate_at =
            NATIVE_PACKAGE_MAGIC.len() + 4 + 4 + bundle.modules[0].module_name.len() + 1;
        encoded.truncate(truncate_at);

        let err = deserialize_native_package_metadata_bundle(&encoded).unwrap_err();
        assert_eq!(
            err.message(),
            "native package metadata: invalid u64 field"
        );
    }

#[test]
fn package_metadata_bundle_rejects_truncated_host_import_count() {
        let bundle = NativePackageMetadataBundle {
            modules: vec![NativePackageMetadataEntry {
                module_name: "guest".to_string(),
                metadata_sidecar_bytes: vec![1, 2, 3],
            }],
            host_imports: vec![PackagedHostImportDescriptor {
                guest_module_name: "guest".to_string(),
                import_module: "env".to_string(),
                import_name: "inc".to_string(),
                function_import_index: 0,
                type_index: 0,
                host_symbol_name: "env_inc_handler".to_string(),
            }],
        };
        let mut encoded = serialize_native_package_metadata_bundle(&bundle);
        let truncate_at = NATIVE_PACKAGE_MAGIC.len()
            + 4
            + 4
            + bundle.modules[0].module_name.len()
            + 8
            + bundle.modules[0].metadata_sidecar_bytes.len()
            + 2;
        encoded.truncate(truncate_at);

        let err = deserialize_native_package_metadata_bundle(&encoded).unwrap_err();
        assert_eq!(
            err.message(),
            "native package metadata: invalid u32 field"
        );
    }

#[test]
fn package_metadata_bundle_rejects_truncated_host_import_guest_module_name_length() {
        let bundle = NativePackageMetadataBundle {
            modules: vec![NativePackageMetadataEntry {
                module_name: "guest".to_string(),
                metadata_sidecar_bytes: vec![1, 2, 3],
            }],
            host_imports: vec![PackagedHostImportDescriptor {
                guest_module_name: "guest".to_string(),
                import_module: "env".to_string(),
                import_name: "inc".to_string(),
                function_import_index: 0,
                type_index: 0,
                host_symbol_name: "env_inc_handler".to_string(),
            }],
        };
        let mut encoded = serialize_native_package_metadata_bundle(&bundle);
        let truncate_at = NATIVE_PACKAGE_MAGIC.len()
            + 4
            + 4
            + bundle.modules[0].module_name.len()
            + 8
            + bundle.modules[0].metadata_sidecar_bytes.len()
            + 4
            + 2;
        encoded.truncate(truncate_at);

        let err = deserialize_native_package_metadata_bundle(&encoded).unwrap_err();
        assert_eq!(
            err.message(),
            "native package metadata: invalid u32 field"
        );
    }

#[test]
fn package_metadata_bundle_rejects_truncated_host_import_guest_module_name_bytes() {
        let bundle = NativePackageMetadataBundle {
            modules: vec![NativePackageMetadataEntry {
                module_name: "guest".to_string(),
                metadata_sidecar_bytes: vec![1, 2, 3],
            }],
            host_imports: vec![PackagedHostImportDescriptor {
                guest_module_name: "guest".to_string(),
                import_module: "env".to_string(),
                import_name: "inc".to_string(),
                function_import_index: 0,
                type_index: 0,
                host_symbol_name: "env_inc_handler".to_string(),
            }],
        };
        let mut encoded = serialize_native_package_metadata_bundle(&bundle);
        let truncate_at = NATIVE_PACKAGE_MAGIC.len()
            + 4
            + 4
            + bundle.modules[0].module_name.len()
            + 8
            + bundle.modules[0].metadata_sidecar_bytes.len()
            + 4
            + 4
            + bundle.host_imports[0].guest_module_name.len()
            - 2;
        encoded.truncate(truncate_at);

        let err = deserialize_native_package_metadata_bundle(&encoded).unwrap_err();
        assert_eq!(
            err.message(),
            "native package metadata: invalid guest module name"
        );
    }

#[test]
fn package_metadata_bundle_rejects_invalid_utf8_in_guest_module_name() {
        let bundle = NativePackageMetadataBundle {
            modules: vec![NativePackageMetadataEntry {
                module_name: "guest".to_string(),
                metadata_sidecar_bytes: vec![1, 2, 3],
            }],
            host_imports: vec![PackagedHostImportDescriptor {
                guest_module_name: "guest".to_string(),
                import_module: "env".to_string(),
                import_name: "inc".to_string(),
                function_import_index: 0,
                type_index: 0,
                host_symbol_name: "env_inc_handler".to_string(),
            }],
        };
        let mut encoded = serialize_native_package_metadata_bundle(&bundle);
        let guest_module_name_offset = NATIVE_PACKAGE_MAGIC.len()
            + 4
            + 4
            + bundle.modules[0].module_name.len()
            + 8
            + bundle.modules[0].metadata_sidecar_bytes.len()
            + 4
            + 4;
        encoded[guest_module_name_offset] = 0xff;

        let err = deserialize_native_package_metadata_bundle(&encoded).unwrap_err();
        assert_eq!(
            err.message(),
            "native package metadata: invalid guest module name: invalid UTF-8: invalid utf-8 sequence of 1 bytes from index 0"
        );
    }

#[test]
fn package_metadata_bundle_rejects_truncated_host_import_module_name_length() {
        let bundle = NativePackageMetadataBundle {
            modules: vec![NativePackageMetadataEntry {
                module_name: "guest".to_string(),
                metadata_sidecar_bytes: vec![1, 2, 3],
            }],
            host_imports: vec![PackagedHostImportDescriptor {
                guest_module_name: "guest".to_string(),
                import_module: "env".to_string(),
                import_name: "inc".to_string(),
                function_import_index: 0,
                type_index: 0,
                host_symbol_name: "env_inc_handler".to_string(),
            }],
        };
        let mut encoded = serialize_native_package_metadata_bundle(&bundle);
        let truncate_at = NATIVE_PACKAGE_MAGIC.len()
            + 4
            + 4
            + bundle.modules[0].module_name.len()
            + 8
            + bundle.modules[0].metadata_sidecar_bytes.len()
            + 4
            + 4
            + bundle.host_imports[0].guest_module_name.len()
            + 2;
        encoded.truncate(truncate_at);

        let err = deserialize_native_package_metadata_bundle(&encoded).unwrap_err();
        assert_eq!(
            err.message(),
            "native package metadata: invalid u32 field"
        );
    }

#[test]
fn package_metadata_bundle_rejects_truncated_host_import_import_name_length() {
        let bundle = NativePackageMetadataBundle {
            modules: vec![NativePackageMetadataEntry {
                module_name: "guest".to_string(),
                metadata_sidecar_bytes: vec![1, 2, 3],
            }],
            host_imports: vec![PackagedHostImportDescriptor {
                guest_module_name: "guest".to_string(),
                import_module: "env".to_string(),
                import_name: "inc".to_string(),
                function_import_index: 0,
                type_index: 0,
                host_symbol_name: "env_inc_handler".to_string(),
            }],
        };
        let mut encoded = serialize_native_package_metadata_bundle(&bundle);
        let truncate_at = NATIVE_PACKAGE_MAGIC.len()
            + 4
            + 4
            + bundle.modules[0].module_name.len()
            + 8
            + bundle.modules[0].metadata_sidecar_bytes.len()
            + 4
            + 4
            + bundle.host_imports[0].guest_module_name.len()
            + 4
            + bundle.host_imports[0].import_module.len()
            + 2;
        encoded.truncate(truncate_at);

        let err = deserialize_native_package_metadata_bundle(&encoded).unwrap_err();
        assert_eq!(
            err.message(),
            "native package metadata: invalid u32 field"
        );
    }

#[test]
fn package_metadata_bundle_rejects_truncated_host_import_import_name_bytes() {
        let bundle = NativePackageMetadataBundle {
            modules: vec![NativePackageMetadataEntry {
                module_name: "guest".to_string(),
                metadata_sidecar_bytes: vec![1, 2, 3],
            }],
            host_imports: vec![PackagedHostImportDescriptor {
                guest_module_name: "guest".to_string(),
                import_module: "env".to_string(),
                import_name: "inc".to_string(),
                function_import_index: 0,
                type_index: 0,
                host_symbol_name: "env_inc_handler".to_string(),
            }],
        };
        let mut encoded = serialize_native_package_metadata_bundle(&bundle);
        let truncate_at = NATIVE_PACKAGE_MAGIC.len()
            + 4
            + 4
            + bundle.modules[0].module_name.len()
            + 8
            + bundle.modules[0].metadata_sidecar_bytes.len()
            + 4
            + 4
            + bundle.host_imports[0].guest_module_name.len()
            + 4
            + bundle.host_imports[0].import_module.len()
            + 4
            + bundle.host_imports[0].import_name.len()
            - 2;
        encoded.truncate(truncate_at);

        let err = deserialize_native_package_metadata_bundle(&encoded).unwrap_err();
        assert_eq!(
            err.message(),
            "native package metadata: invalid import name"
        );
    }

#[test]
fn package_metadata_bundle_rejects_invalid_utf8_in_import_name() {
        let bundle = NativePackageMetadataBundle {
            modules: vec![NativePackageMetadataEntry {
                module_name: "guest".to_string(),
                metadata_sidecar_bytes: vec![1, 2, 3],
            }],
            host_imports: vec![PackagedHostImportDescriptor {
                guest_module_name: "guest".to_string(),
                import_module: "env".to_string(),
                import_name: "inc".to_string(),
                function_import_index: 0,
                type_index: 0,
                host_symbol_name: "env_inc_handler".to_string(),
            }],
        };
        let mut encoded = serialize_native_package_metadata_bundle(&bundle);
        let import_name_offset = NATIVE_PACKAGE_MAGIC.len()
            + 4
            + 4
            + bundle.modules[0].module_name.len()
            + 8
            + bundle.modules[0].metadata_sidecar_bytes.len()
            + 4
            + 4
            + bundle.host_imports[0].guest_module_name.len()
            + 4
            + bundle.host_imports[0].import_module.len()
            + 4;
        encoded[import_name_offset] = 0xff;

        let err = deserialize_native_package_metadata_bundle(&encoded).unwrap_err();
        assert_eq!(
            err.message(),
            "native package metadata: invalid import name: invalid UTF-8: invalid utf-8 sequence of 1 bytes from index 0"
        );
    }

#[test]
fn package_metadata_bundle_rejects_truncated_host_import_module_name_bytes() {
        let bundle = NativePackageMetadataBundle {
            modules: vec![NativePackageMetadataEntry {
                module_name: "guest".to_string(),
                metadata_sidecar_bytes: vec![1, 2, 3],
            }],
            host_imports: vec![PackagedHostImportDescriptor {
                guest_module_name: "guest".to_string(),
                import_module: "env".to_string(),
                import_name: "inc".to_string(),
                function_import_index: 0,
                type_index: 0,
                host_symbol_name: "env_inc_handler".to_string(),
            }],
        };
        let mut encoded = serialize_native_package_metadata_bundle(&bundle);
        let truncate_at = NATIVE_PACKAGE_MAGIC.len()
            + 4
            + 4
            + bundle.modules[0].module_name.len()
            + 8
            + bundle.modules[0].metadata_sidecar_bytes.len()
            + 4
            + 4
            + bundle.host_imports[0].guest_module_name.len()
            + 4
            + bundle.host_imports[0].import_module.len()
            - 2;
        encoded.truncate(truncate_at);

        let err = deserialize_native_package_metadata_bundle(&encoded).unwrap_err();
        assert_eq!(
            err.message(),
            "native package metadata: invalid import module"
        );
    }

#[test]
fn package_metadata_bundle_rejects_invalid_utf8_in_import_module() {
        let bundle = NativePackageMetadataBundle {
            modules: vec![NativePackageMetadataEntry {
                module_name: "guest".to_string(),
                metadata_sidecar_bytes: vec![1, 2, 3],
            }],
            host_imports: vec![PackagedHostImportDescriptor {
                guest_module_name: "guest".to_string(),
                import_module: "env".to_string(),
                import_name: "inc".to_string(),
                function_import_index: 0,
                type_index: 0,
                host_symbol_name: "env_inc_handler".to_string(),
            }],
        };
        let mut encoded = serialize_native_package_metadata_bundle(&bundle);
        let import_module_offset = NATIVE_PACKAGE_MAGIC.len()
            + 4
            + 4
            + bundle.modules[0].module_name.len()
            + 8
            + bundle.modules[0].metadata_sidecar_bytes.len()
            + 4
            + 4
            + bundle.host_imports[0].guest_module_name.len()
            + 4;
        encoded[import_module_offset] = 0xff;

        let err = deserialize_native_package_metadata_bundle(&encoded).unwrap_err();
        assert_eq!(
            err.message(),
            "native package metadata: invalid import module: invalid UTF-8: invalid utf-8 sequence of 1 bytes from index 0"
        );
    }

#[test]
fn package_metadata_bundle_rejects_truncated_host_import_function_index() {
        let bundle = NativePackageMetadataBundle {
            modules: vec![NativePackageMetadataEntry {
                module_name: "guest".to_string(),
                metadata_sidecar_bytes: vec![1, 2, 3],
            }],
            host_imports: vec![PackagedHostImportDescriptor {
                guest_module_name: "guest".to_string(),
                import_module: "env".to_string(),
                import_name: "inc".to_string(),
                function_import_index: 0,
                type_index: 0,
                host_symbol_name: "env_inc_handler".to_string(),
            }],
        };
        let mut encoded = serialize_native_package_metadata_bundle(&bundle);
        let truncate_at = NATIVE_PACKAGE_MAGIC.len()
            + 4
            + 4
            + bundle.modules[0].module_name.len()
            + 8
            + bundle.modules[0].metadata_sidecar_bytes.len()
            + 4
            + 4
            + bundle.host_imports[0].guest_module_name.len()
            + 4
            + bundle.host_imports[0].import_module.len()
            + 4
            + bundle.host_imports[0].import_name.len()
            + 2;
        encoded.truncate(truncate_at);

        let err = deserialize_native_package_metadata_bundle(&encoded).unwrap_err();
        assert_eq!(
            err.message(),
            "native package metadata: invalid u32 field"
        );
    }

#[test]
fn package_metadata_bundle_rejects_truncated_host_import_function_index_partial() {
        let bundle = NativePackageMetadataBundle {
            modules: vec![NativePackageMetadataEntry {
                module_name: "guest".to_string(),
                metadata_sidecar_bytes: vec![1, 2, 3],
            }],
            host_imports: vec![PackagedHostImportDescriptor {
                guest_module_name: "guest".to_string(),
                import_module: "env".to_string(),
                import_name: "inc".to_string(),
                function_import_index: 0,
                type_index: 0,
                host_symbol_name: "env_inc_handler".to_string(),
            }],
        };
        let mut encoded = serialize_native_package_metadata_bundle(&bundle);
        let truncate_at = NATIVE_PACKAGE_MAGIC.len()
            + 4
            + 4
            + bundle.modules[0].module_name.len()
            + 8
            + bundle.modules[0].metadata_sidecar_bytes.len()
            + 4
            + 4
            + bundle.host_imports[0].guest_module_name.len()
            + 4
            + bundle.host_imports[0].import_module.len()
            + 4
            + bundle.host_imports[0].import_name.len()
            + 1;
        encoded.truncate(truncate_at);

        let err = deserialize_native_package_metadata_bundle(&encoded).unwrap_err();
        assert_eq!(
            err.message(),
            "native package metadata: invalid u32 field"
        );
    }

#[test]
fn package_metadata_bundle_rejects_truncated_host_import_type_index() {
        let bundle = NativePackageMetadataBundle {
            modules: vec![NativePackageMetadataEntry {
                module_name: "guest".to_string(),
                metadata_sidecar_bytes: vec![1, 2, 3],
            }],
            host_imports: vec![PackagedHostImportDescriptor {
                guest_module_name: "guest".to_string(),
                import_module: "env".to_string(),
                import_name: "inc".to_string(),
                function_import_index: 0,
                type_index: 0,
                host_symbol_name: "env_inc_handler".to_string(),
            }],
        };
        let mut encoded = serialize_native_package_metadata_bundle(&bundle);
        let truncate_at = NATIVE_PACKAGE_MAGIC.len()
            + 4
            + 4
            + bundle.modules[0].module_name.len()
            + 8
            + bundle.modules[0].metadata_sidecar_bytes.len()
            + 4
            + 4
            + bundle.host_imports[0].guest_module_name.len()
            + 4
            + bundle.host_imports[0].import_module.len()
            + 4
            + bundle.host_imports[0].import_name.len()
            + 4
            + 2;
        encoded.truncate(truncate_at);

        let err = deserialize_native_package_metadata_bundle(&encoded).unwrap_err();
        assert_eq!(
            err.message(),
            "native package metadata: invalid u32 field"
        );
    }

#[test]
fn package_metadata_bundle_rejects_truncated_host_import_type_index_partial() {
        let bundle = NativePackageMetadataBundle {
            modules: vec![NativePackageMetadataEntry {
                module_name: "guest".to_string(),
                metadata_sidecar_bytes: vec![1, 2, 3],
            }],
            host_imports: vec![PackagedHostImportDescriptor {
                guest_module_name: "guest".to_string(),
                import_module: "env".to_string(),
                import_name: "inc".to_string(),
                function_import_index: 0,
                type_index: 0,
                host_symbol_name: "env_inc_handler".to_string(),
            }],
        };
        let mut encoded = serialize_native_package_metadata_bundle(&bundle);
        let truncate_at = NATIVE_PACKAGE_MAGIC.len()
            + 4
            + 4
            + bundle.modules[0].module_name.len()
            + 8
            + bundle.modules[0].metadata_sidecar_bytes.len()
            + 4
            + 4
            + bundle.host_imports[0].guest_module_name.len()
            + 4
            + bundle.host_imports[0].import_module.len()
            + 4
            + bundle.host_imports[0].import_name.len()
            + 4
            + 1;
        encoded.truncate(truncate_at);

        let err = deserialize_native_package_metadata_bundle(&encoded).unwrap_err();
        assert_eq!(
            err.message(),
            "native package metadata: invalid u32 field"
        );
    }

#[test]
fn package_metadata_bundle_rejects_truncated_host_import_symbol_name_length() {
        let bundle = NativePackageMetadataBundle {
            modules: vec![NativePackageMetadataEntry {
                module_name: "guest".to_string(),
                metadata_sidecar_bytes: vec![1, 2, 3],
            }],
            host_imports: vec![PackagedHostImportDescriptor {
                guest_module_name: "guest".to_string(),
                import_module: "env".to_string(),
                import_name: "inc".to_string(),
                function_import_index: 0,
                type_index: 0,
                host_symbol_name: "env_inc_handler".to_string(),
            }],
        };
        let mut encoded = serialize_native_package_metadata_bundle(&bundle);
        let truncate_at = NATIVE_PACKAGE_MAGIC.len()
            + 4
            + 4
            + bundle.modules[0].module_name.len()
            + 8
            + bundle.modules[0].metadata_sidecar_bytes.len()
            + 4
            + 4
            + bundle.host_imports[0].guest_module_name.len()
            + 4
            + bundle.host_imports[0].import_module.len()
            + 4
            + bundle.host_imports[0].import_name.len()
            + 4
            + 4;
        encoded.truncate(truncate_at);

        let err = deserialize_native_package_metadata_bundle(&encoded).unwrap_err();
        assert_eq!(
            err.message(),
            "native package metadata: invalid u32 field"
        );
    }

#[test]
fn package_metadata_bundle_rejects_truncated_host_import_symbol_name_bytes() {
        let bundle = NativePackageMetadataBundle {
            modules: vec![NativePackageMetadataEntry {
                module_name: "guest".to_string(),
                metadata_sidecar_bytes: vec![1, 2, 3],
            }],
            host_imports: vec![PackagedHostImportDescriptor {
                guest_module_name: "guest".to_string(),
                import_module: "env".to_string(),
                import_name: "inc".to_string(),
                function_import_index: 0,
                type_index: 0,
                host_symbol_name: "env_inc_handler".to_string(),
            }],
        };
        let mut encoded = serialize_native_package_metadata_bundle(&bundle);
        let truncate_at = NATIVE_PACKAGE_MAGIC.len()
            + 4
            + 4
            + bundle.modules[0].module_name.len()
            + 8
            + bundle.modules[0].metadata_sidecar_bytes.len()
            + 4
            + 4
            + bundle.host_imports[0].guest_module_name.len()
            + 4
            + bundle.host_imports[0].import_module.len()
            + 4
            + bundle.host_imports[0].import_name.len()
            + 4
            + 4
            + 4
            + bundle.host_imports[0].host_symbol_name.len()
            - 2;
        encoded.truncate(truncate_at);

        let err = deserialize_native_package_metadata_bundle(&encoded).unwrap_err();
        assert_eq!(
            err.message(),
            "native package metadata: invalid host symbol name"
        );
    }

#[test]
fn package_metadata_bundle_rejects_invalid_utf8_in_host_symbol_name() {
        let bundle = NativePackageMetadataBundle {
            modules: vec![NativePackageMetadataEntry {
                module_name: "guest".to_string(),
                metadata_sidecar_bytes: vec![1, 2, 3],
            }],
            host_imports: vec![PackagedHostImportDescriptor {
                guest_module_name: "guest".to_string(),
                import_module: "env".to_string(),
                import_name: "inc".to_string(),
                function_import_index: 0,
                type_index: 0,
                host_symbol_name: "env_inc_handler".to_string(),
            }],
        };
        let mut encoded = serialize_native_package_metadata_bundle(&bundle);
        let host_symbol_name_offset = NATIVE_PACKAGE_MAGIC.len()
            + 4
            + 4
            + bundle.modules[0].module_name.len()
            + 8
            + bundle.modules[0].metadata_sidecar_bytes.len()
            + 4
            + 4
            + bundle.host_imports[0].guest_module_name.len()
            + 4
            + bundle.host_imports[0].import_module.len()
            + 4
            + bundle.host_imports[0].import_name.len()
            + 4
            + 4
            + 4;
        encoded[host_symbol_name_offset] = 0xff;

        let err = deserialize_native_package_metadata_bundle(&encoded).unwrap_err();
        assert_eq!(
            err.message(),
            "native package metadata: invalid host symbol name: invalid UTF-8: invalid utf-8 sequence of 1 bytes from index 0"
        );
    }

#[test]
fn package_metadata_bundle_rejects_truncated_host_import_metadata() {
        let bundle = NativePackageMetadataBundle {
            modules: vec![NativePackageMetadataEntry {
                module_name: "guest".to_string(),
                metadata_sidecar_bytes: vec![1, 2, 3],
            }],
            host_imports: vec![PackagedHostImportDescriptor {
                guest_module_name: "guest".to_string(),
                import_module: "env".to_string(),
                import_name: "inc".to_string(),
                function_import_index: 0,
                type_index: 0,
                host_symbol_name: "env_inc_handler".to_string(),
            }],
        };
        let mut encoded = serialize_native_package_metadata_bundle(&bundle);
        encoded.pop();

        let err = deserialize_native_package_metadata_bundle(&encoded).unwrap_err();
        assert_eq!(
            err.message(),
            "native package metadata: invalid host symbol name"
        );
    }

#[test]
fn package_metadata_bundle_rejects_unexpected_trailing_bytes() {
        let bundle = sample_package_metadata_bundle();
        let mut encoded = serialize_native_package_metadata_bundle(&bundle);
        encoded.extend_from_slice(&[0xde, 0xad, 0xbe, 0xef]);

        let err = deserialize_native_package_metadata_bundle(&encoded).unwrap_err();
        assert_eq!(
            err.message(),
            "native package metadata: unexpected trailing bytes"
        );
    }
