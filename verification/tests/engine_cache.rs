use razero_compiler::checksum::crc32c;
use razero_compiler::aot::AotCompiledMetadata;
use razero_compiler::engine_cache::{
    attach_aot_metadata, deserialize_compiled_module, file_cache_key, serialize_compiled_module,
    AotMetadataError, CachedCompiledModule, EngineCacheError, PrecompiledModuleArtifact, SourceMap,
};

#[test]
fn crc32c_matches_known_vector() {
    assert_eq!(crc32c(b"123456789"), 0xe306_9283);
}

#[test]
fn crc32c_of_nothing_is_zero() {
    assert_eq!(crc32c(b""), 0);
}

#[test]
fn cache_key_rehashes_module_id() {
    let id = [7u8; 32];
    assert_ne!(file_cache_key(&id, "x86_64", false, false), id);
}

#[test]
fn cache_key_distinguishes_memory_isolation_mode() {
    let id = [7u8; 32];
    assert_ne!(
        file_cache_key(&id, "x86_64", false, false),
        file_cache_key(&id, "x86_64", true, false)
    );
}

#[test]
fn cache_key_distinguishes_fuel_mode() {
    let id = [7u8; 32];
    assert_ne!(
        file_cache_key(&id, "x86_64", false, false),
        file_cache_key(&id, "x86_64", false, true)
    );
}

#[test]
fn cache_key_flips_exactly_the_mode_bits() {
    let id = [7u8; 32];
    let plain = file_cache_key(&id, "x86_64", false, false);
    let both = file_cache_key(&id, "x86_64", true, true);
    assert_eq!(plain[0] ^ both[0], 0x80);
    assert_eq!(plain[1] ^ both[1], 0x40);
    assert_eq!(&plain[2..], &both[2..]);
}

#[test]
fn cache_key_salts_with_magic_and_architecture() {
    let id = [0u8; 32];
    let key = file_cache_key(&id, "x86_64", false, false);
    let salt = b"WAZEVOx86_64";
    for (index, byte) in salt.iter().enumerate() {
        assert_eq!(key[index], *byte);
    }
    assert!(key[salt.len()..].iter().all(|b| *b == 0));
}

#[test]
fn serialize_and_deserialize_round_trip() {
    let source_map = SourceMap {
        executable_offsets: vec![4, 8],
        wasm_binary_offsets: vec![10, 20],
    };
    let aot = vec![9u8, 1, 0, 0, 0, 0x2a, 0x0b, 0xff];
    let bytes = serialize_compiled_module("0.0.0", &[1, 2, 3, 4], &[0, 2], &source_map, &aot);
    let cached = deserialize_compiled_module("0.0.0", &bytes).unwrap().unwrap();
    assert_eq!(cached.executable, vec![1, 2, 3, 4]);
    assert_eq!(cached.function_offsets, vec![0, 2]);
    assert_eq!(cached.source_map, source_map);
    assert_eq!(cached.aot, aot);
}

#[test]
fn deserialize_rejects_checksum_mismatch() {
    let version = "0.0.0";
    let executable = [1, 2, 3];
    let mut bytes =
        serialize_compiled_module(version, &executable, &[0], &SourceMap::default(), &[]);
    let checksum_offset = 6 + 1 + version.len() + 4 + 8 + 8 + executable.len();
    bytes[checksum_offset] ^= 0xff;
    assert!(deserialize_compiled_module(version, &bytes).is_err());
}

#[test]
fn checksum_mismatch_reports_both_checksums() {
    let version = "0.0.0";
    let executable = [1, 2, 3];
    let mut bytes =
        serialize_compiled_module(version, &executable, &[0], &SourceMap::default(), &[]);
    let checksum_offset = 6 + 1 + version.len() + 4 + 8 + 8 + executable.len();
    bytes[checksum_offset] ^= 0xff;
    match deserialize_compiled_module(version, &bytes) {
        Err(EngineCacheError::ChecksumMismatch { expected, actual }) => {
            assert_eq!(expected, crc32c(&executable));
            assert_eq!(actual, expected ^ 0xff);
        }
        other => panic!("unexpected {:?}", other),
    }
}

#[test]
fn version_mismatch_returns_stale_cache() {
    let bytes = serialize_compiled_module("0.0.0", &[1, 2, 3], &[0], &SourceMap::default(), &[]);
    assert!(deserialize_compiled_module("1.0.0", &bytes).unwrap().is_none());
}

#[test]
fn deserialize_rejects_bad_magic() {
    let mut bytes =
        serialize_compiled_module("0.0.0", &[1, 2, 3], &[0], &SourceMap::default(), &[]);
    bytes[0] = b'X';
    match deserialize_compiled_module("0.0.0", &bytes) {
        Err(EngineCacheError::InvalidHeader(_)) => {}
        other => panic!("unexpected {:?}", other),
    }
}

#[test]
fn deserialize_rejects_truncated_header() {
    match deserialize_compiled_module("0.0.0", b"WAZ") {
        Err(EngineCacheError::Io(message)) => {
            assert_eq!(message, "compilationcache: invalid header length: failed to fill whole buffer")
        }
        other => panic!("unexpected {:?}", other),
    }
}

#[test]
fn precompiled_artifact_round_trips_under_the_package_version() {
    let artifact = PrecompiledModuleArtifact {
        executable: vec![0xc3, 0x90],
        function_offsets: vec![0],
        source_map: SourceMap::default(),
        aot: vec![1, 2, 3],
    };
    let bytes = artifact.serialize();
    let decoded = PrecompiledModuleArtifact::deserialize(&bytes).unwrap().unwrap();
    assert_eq!(decoded, artifact);
}

fn header_error(bytes: &[u8]) -> String {
    match deserialize_compiled_module("0.0.0", bytes) {
        Err(EngineCacheError::InvalidHeader(message)) => message,
        other => panic!("unexpected {:?}", other),
    }
}

fn io_error(bytes: &[u8]) -> String {
    match deserialize_compiled_module("0.0.0", bytes) {
        Err(EngineCacheError::Io(message)) => message,
        other => panic!("unexpected {:?}", other),
    }
}

#[test]
fn bad_magic_names_the_bytes_found() {
    let mut bytes = serialize_compiled_module("0.0.0", &[1, 2, 3], &[0], &SourceMap::default(), &[]);
    bytes[0] = b'X';
    assert_eq!(header_error(&bytes), "compilationcache: invalid magic number: got XAZEVO but want WAZEVO");
}

#[test]
fn each_truncated_field_is_named() {
    let bytes = serialize_compiled_module("0.0.0", &[1, 2, 3], &[0], &SourceMap::default(), &[7]);
    // magic, version length, version, function count, one offset, executable
    // length, executable, checksum, source map flag, aot length, aot byte
    let version_end = 6 + 1 + 5;
    let offsets_end = version_end + 4 + 8;
    let executable_end = offsets_end + 8 + 3;
    let checksum_end = executable_end + 4;
    assert_eq!(bytes.len(), checksum_end + 1 + 8 + 1);
    assert_eq!(io_error(&bytes[..8]), "compilationcache: invalid header length: failed to fill whole buffer");
    assert_eq!(
        io_error(&bytes[..version_end + 2]),
        "compilationcache: invalid header length: failed to fill whole buffer"
    );
    assert_eq!(
        io_error(&bytes[..offsets_end + 3]),
        "compilationcache: error reading executable size: failed to fill whole buffer"
    );
    assert_eq!(
        io_error(&bytes[..executable_end + 1]),
        "compilationcache: could not read checksum: failed to fill whole buffer"
    );
    assert_eq!(
        io_error(&bytes[..checksum_end]),
        "compilationcache: invalid header length: failed to fill whole buffer"
    );
    assert_eq!(
        io_error(&bytes[..checksum_end + 1 + 4]),
        "compilationcache: could not read aot metadata length: failed to fill whole buffer"
    );
}

#[test]
fn lengths_past_the_end_are_invalid_headers() {
    let bytes = serialize_compiled_module("0.0.0", &[1, 2, 3], &[0], &SourceMap::default(), &[7]);
    let version_end = 6 + 1 + 5;
    // A function table longer than the entry.
    assert_eq!(
        header_error(&bytes[..version_end + 4 + 4]),
        "compilationcache: invalid function offset table length"
    );
    let offsets_end = version_end + 4 + 8;
    // An executable longer than what is left.
    assert_eq!(header_error(&bytes[..offsets_end + 8 + 2]), "compilationcache: invalid executable size");
    let checksum_end = offsets_end + 8 + 3 + 4;
    // An aot sidecar longer than what is left.
    assert_eq!(
        header_error(&bytes[..checksum_end + 1 + 8]),
        "compilationcache: invalid aot metadata length"
    );
    // A source map flag that is neither 0 nor 1.
    let mut flagged = bytes.clone();
    flagged[checksum_end] = 7;
    assert_eq!(header_error(&flagged), "compilationcache: invalid source map flag 7");
    // A source map longer than what is left.
    let mut mapped = bytes[..checksum_end].to_vec();
    mapped.push(1);
    mapped.extend_from_slice(&5u64.to_le_bytes());
    assert_eq!(header_error(&mapped), "compilationcache: invalid source map length");
    mapped.truncate(checksum_end + 4);
    assert_eq!(io_error(&mapped), "compilationcache: could not read source map length: failed to fill whole buffer");
}

#[test]
fn decoded_aot_metadata_completes_the_cache_entry() {
    let cached = CachedCompiledModule {
        executable: vec![0xc3, 0x90],
        function_offsets: vec![0],
        source_map: SourceMap { executable_offsets: vec![0], wasm_binary_offsets: vec![12] },
        aot: vec![1, 2, 3],
    };
    let metadata = AotCompiledMetadata { module_id: [9; 32], ..AotCompiledMetadata::default() };
    let decoded = attach_aot_metadata(cached.clone(), Ok(metadata.clone())).unwrap();
    assert_eq!(decoded.executable, vec![0xc3, 0x90]);
    assert_eq!(decoded.function_offsets, vec![0]);
    assert_eq!(decoded.source_map, cached.source_map);
    assert_eq!(decoded.aot, metadata);

    let err = attach_aot_metadata(cached.clone(), Err(AotMetadataError::InvalidHeader("aot: bad magic".to_string())))
        .unwrap_err();
    assert_eq!(err, EngineCacheError::AotMetadata("aot: bad magic".to_string()));
    let err = attach_aot_metadata(cached, Err(AotMetadataError::Io("aot: short read".to_string()))).unwrap_err();
    assert_eq!(err, EngineCacheError::AotMetadata("aot: short read".to_string()));
}

#[test]
fn bad_magic_shows_invalid_bytes_as_replacement_characters() {
    let mut bytes = serialize_compiled_module("0.0.0", &[1, 2, 3], &[0], &SourceMap::default(), &[]);
    bytes[0] = 0xff;
    assert_eq!(
        header_error(&bytes),
        "compilationcache: invalid magic number: got \u{FFFD}AZEVO but want WAZEVO"
    );
}
