//! The compilation cache format: the bytes that a compiled module is stored as
//! between runs, and their decoding.

use vstd::prelude::*;
use vstd::utf8::encode_utf8;

use crate::aot::AotCompiledMetadata;
use crate::checksum::{crc32c, spec_crc32c};
use crate::le_bytes::{
    le_u32, le_u64, lemma_u32_le_at_encoding, lemma_u64_le_at_encoding, push_all, push_u32_le,
    push_u64_le, read_u32_le_at, read_u64_le_at, u32_le_at, u64_le_at,
};
use crate::text::{decimal, lossy_text, push_decimal, push_str, string_from_utf8_lossy, string_of};

verus! {

/// Version of this crate, stamped into every cache entry.
pub fn package_version() -> (res: &'static str)
    ensures
        res@ == "0.0.0"@,
{
    "0.0.0"
}

/// `WAZEVO`, the first six bytes of every cache entry.
pub open spec fn cache_magic() -> Seq<u8> {
    seq![0x57u8, 0x41u8, 0x5au8, 0x45u8, 0x56u8, 0x4fu8]
}

/// Errors of cache decoding. Each carries a human-readable message.
#[derive(Debug, Clone, PartialEq, Eq)]
pub enum EngineCacheError {
    InvalidHeader(String),
    Io(String),
    ChecksumMismatch { expected: u32, actual: u32 },
    AotMetadata(String),
}

impl EngineCacheError {
    /// The error's message.
    pub fn message(&self) -> (res: String)
        ensures
            self matches EngineCacheError::InvalidHeader(m) ==> res@ == m@,
            self matches EngineCacheError::Io(m) ==> res@ == m@,
            self matches EngineCacheError::AotMetadata(m) ==> res@ == m@,
            self matches EngineCacheError::ChecksumMismatch { expected, actual } ==> res@
                == "compilationcache: checksum mismatch (expected "@ + decimal(expected as nat)
                + ", got "@ + decimal(actual as nat) + ")"@,
    {
        match self {
            EngineCacheError::InvalidHeader(m) => m.clone(),
            EngineCacheError::Io(m) => m.clone(),
            EngineCacheError::AotMetadata(m) => m.clone(),
            EngineCacheError::ChecksumMismatch { expected, actual } => {
                let mut s = string_of("compilationcache: checksum mismatch (expected ");
                push_decimal(&mut s, *expected as u64);
                push_str(&mut s, ", got ");
                push_decimal(&mut s, *actual as u64);
                push_str(&mut s, ")");
                s
            },
        }
    }
}

/// Pairs of executable offsets and the wasm binary offsets they were compiled from.
#[derive(Clone, Debug, Default, PartialEq, Eq)]
pub struct SourceMap {
    pub executable_offsets: Vec<usize>,
    pub wasm_binary_offsets: Vec<u64>,
}

/// A compiled module as decoded from the cache: the executable text, the
/// offset of each local function in it, its source map, and the serialized
/// AOT metadata sidecar.
#[derive(Clone, Debug, Default, PartialEq, Eq)]
pub struct CachedCompiledModule {
    pub executable: Vec<u8>,
    pub function_offsets: Vec<usize>,
    pub source_map: SourceMap,
    pub aot: Vec<u8>,
}

/// A precompiled module that can be shipped and loaded without compiling.
#[derive(Clone, Debug, Default, PartialEq, Eq)]
pub struct PrecompiledModuleArtifact {
    pub executable: Vec<u8>,
    pub function_offsets: Vec<usize>,
    pub source_map: SourceMap,
    pub aot: Vec<u8>,
}

/// The content of a decoded cache entry.
pub struct CachedModuleModel {
    pub executable: Seq<u8>,
    pub function_offsets: Seq<usize>,
    pub executable_offsets: Seq<usize>,
    pub wasm_binary_offsets: Seq<u64>,
    pub aot: Seq<u8>,
}

impl CachedCompiledModule {
    pub open spec fn model(&self) -> CachedModuleModel {
        CachedModuleModel {
            executable: self.executable@,
            function_offsets: self.function_offsets@,
            executable_offsets: self.source_map.executable_offsets@,
            wasm_binary_offsets: self.source_map.wasm_binary_offsets@,
            aot: self.aot@,
        }
    }
}

impl PrecompiledModuleArtifact {
    pub open spec fn model(&self) -> CachedModuleModel {
        CachedModuleModel {
            executable: self.executable@,
            function_offsets: self.function_offsets@,
            executable_offsets: self.source_map.executable_offsets@,
            wasm_binary_offsets: self.source_map.wasm_binary_offsets@,
            aot: self.aot@,
        }
    }
}

/// What decoding a byte string as a cache entry gives.
pub enum CacheDecoding {
    Decoded(CachedModuleModel),
    /// The entry was written by another version.
    Stale,
    /// A length or flag in the entry is malformed: the error's message.
    InvalidHeader(Seq<char>),
    /// The entry does not start with the magic number: the six bytes found.
    InvalidMagic(Seq<u8>),
    /// The entry ends inside a field: the error's message.
    Io(Seq<char>),
    ChecksumMismatch { expected: u32, actual: u32 },
}

// ----- encoding -----

/// The function offset table: each offset as a little-endian `u64`.
pub open spec fn encode_offsets(offsets: Seq<usize>) -> Seq<u8>
    decreases offsets.len(),
{
    if offsets.len() == 0 {
        seq![]
    } else {
        encode_offsets(offsets.drop_last()) + le_u64(offsets.last() as u64)
    }
}

/// The first `n` source map pairs, each the wasm offset then the executable offset.
pub open spec fn encode_source_pairs(wasm: Seq<u64>, executable: Seq<usize>, n: nat) -> Seq<u8>
    decreases n,
{
    if n == 0 {
        seq![]
    } else {
        encode_source_pairs(wasm, executable, (n - 1) as nat) + le_u64(wasm[n - 1]) + le_u64(
            executable[n - 1] as u64,
        )
    }
}

/// The source map section: a flag byte, then (when there are entries) their count and pairs.
pub open spec fn source_map_bytes(executable: Seq<usize>, wasm: Seq<u64>) -> Seq<u8> {
    if executable.len() == 0 {
        seq![0u8]
    } else {
        seq![1u8] + le_u64(executable.len() as u64) + encode_source_pairs(
            wasm,
            executable,
            if executable.len() <= wasm.len() {
                executable.len()
            } else {
                wasm.len()
            },
        )
    }
}

/// The cache entry for a compiled module.
pub open spec fn encode_cache(
    version: Seq<u8>,
    executable: Seq<u8>,
    function_offsets: Seq<usize>,
    executable_offsets: Seq<usize>,
    wasm_offsets: Seq<u64>,
    aot: Seq<u8>,
) -> Seq<u8> {
    cache_magic() + (seq![version.len() as u8] + (version + encode_after_version(
        executable,
        function_offsets,
        executable_offsets,
        wasm_offsets,
        aot,
    )))
}

/// The entry from the function offset table on.
pub open spec fn encode_after_version(
    executable: Seq<u8>,
    function_offsets: Seq<usize>,
    executable_offsets: Seq<usize>,
    wasm_offsets: Seq<u64>,
    aot: Seq<u8>,
) -> Seq<u8> {
    le_u32(function_offsets.len() as u32) + (encode_offsets(function_offsets)
        + encode_after_offsets(executable, executable_offsets, wasm_offsets, aot))
}

/// The entry from the executable on.
pub open spec fn encode_after_offsets(
    executable: Seq<u8>,
    executable_offsets: Seq<usize>,
    wasm_offsets: Seq<u64>,
    aot: Seq<u8>,
) -> Seq<u8> {
    le_u64(executable.len() as u64) + (executable + (le_u32(spec_crc32c(executable))
        + encode_after_checksum(executable_offsets, wasm_offsets, aot)))
}

/// The entry from the source map on.
pub open spec fn encode_after_checksum(
    executable_offsets: Seq<usize>,
    wasm_offsets: Seq<u64>,
    aot: Seq<u8>,
) -> Seq<u8> {
    source_map_bytes(executable_offsets, wasm_offsets) + (le_u64(aot.len() as u64) + aot)
}

// ----- decoding -----

/// The message of a read that ran out of bytes in the field `context` names.
pub open spec fn io_text(context: Seq<char>) -> Seq<char> {
    context + ": failed to fill whole buffer"@
}

/// The message for a wrong magic number: the bytes found, as text, then the
/// magic number wanted.
pub open spec fn magic_text(got: Seq<char>) -> Seq<char> {
    "compilationcache: invalid magic number: got "@ + got + " but want WAZEVO"@
}

/// The error that a failed decoding reports. The bytes of a wrong magic
/// number are shown as text, decoded lossily (their characters when they are
/// valid UTF-8).
pub open spec fn decode_error_matches(d: CacheDecoding, e: EngineCacheError) -> bool {
    match d {
        CacheDecoding::InvalidHeader(t) => e matches EngineCacheError::InvalidHeader(m) && m@ == t,
        CacheDecoding::InvalidMagic(got) => e matches EngineCacheError::InvalidHeader(m) && m@ == magic_text(
            lossy_text(got),
        ),
        CacheDecoding::Io(t) => e matches EngineCacheError::Io(m) && m@ == t,
        CacheDecoding::ChecksumMismatch { expected, actual } => e matches EngineCacheError::ChecksumMismatch {
            expected: x,
            actual: a,
        } && x == expected && a == actual,
        _ => false,
    }
}

/// Decodes a cache entry written for `version`.
pub open spec fn decode_cache(version: Seq<u8>, b: Seq<u8>) -> CacheDecoding {
    if b.len() < 6 {
        CacheDecoding::Io(io_text("compilationcache: invalid header length"@))
    } else if b.subrange(0, 6) != cache_magic() {
        CacheDecoding::InvalidMagic(b.subrange(0, 6))
    } else if b.len() < 7 + b[6] {
        CacheDecoding::Io(io_text("compilationcache: invalid header length"@))
    } else if b.subrange(7, 7 + b[6]) != version {
        CacheDecoding::Stale
    } else {
        decode_functions(b, 7 + b[6])
    }
}

/// Decoding from the function offset table on.
#[verifier::opaque]
pub open spec fn decode_functions(b: Seq<u8>, p: int) -> CacheDecoding {
    if b.len() < p + 4 {
        CacheDecoding::Io(io_text("compilationcache: invalid header length"@))
    } else {
        let n = u32_le_at(b, p) as int;
        let q = p + 4;
        if n * 8 > b.len() - q {
            CacheDecoding::InvalidHeader("compilationcache: invalid function offset table length"@)
        } else {
            decode_executable(b, q + n * 8, Seq::new(n as nat, |i: int| u64_le_at(b, q + 8 * i) as usize))
        }
    }
}

/// Decoding from the executable on.
#[verifier::opaque]
pub open spec fn decode_executable(b: Seq<u8>, p: int, offsets: Seq<usize>) -> CacheDecoding {
    if b.len() < p + 8 {
        CacheDecoding::Io(io_text("compilationcache: error reading executable size"@))
    } else {
        let n = u64_le_at(b, p) as int;
        let q = p + 8;
        if n > b.len() - q {
            CacheDecoding::InvalidHeader("compilationcache: invalid executable size"@)
        } else {
            let executable = b.subrange(q, q + n);
            let r = q + n;
            if b.len() < r + 4 {
                CacheDecoding::Io(io_text("compilationcache: could not read checksum"@))
            } else if spec_crc32c(executable) != u32_le_at(b, r) {
                CacheDecoding::ChecksumMismatch {
                    expected: spec_crc32c(executable),
                    actual: u32_le_at(b, r),
                }
            } else {
                decode_source_map(b, r + 4, executable, offsets)
            }
        }
    }
}

/// Decoding from the source map on.
#[verifier::opaque]
pub open spec fn decode_source_map(
    b: Seq<u8>,
    p: int,
    executable: Seq<u8>,
    offsets: Seq<usize>,
) -> CacheDecoding {
    if b.len() < p + 1 {
        CacheDecoding::Io(io_text("compilationcache: invalid header length"@))
    } else if b[p] == 0 {
        decode_aot(b, p + 1, executable, offsets, seq![], seq![])
    } else if b[p] == 1 {
        if b.len() < p + 9 {
            CacheDecoding::Io(io_text("compilationcache: could not read source map length"@))
        } else {
            let n = u64_le_at(b, p + 1) as int;
            let q = p + 9;
            if n * 16 > b.len() - q {
                CacheDecoding::InvalidHeader("compilationcache: invalid source map length"@)
            } else {
                decode_aot(
                    b,
                    q + n * 16,
                    executable,
                    offsets,
                    Seq::new(n as nat, |i: int| u64_le_at(b, q + 16 * i + 8) as usize),
                    Seq::new(n as nat, |i: int| u64_le_at(b, q + 16 * i)),
                )
            }
        }
    } else {
        CacheDecoding::InvalidHeader("compilationcache: invalid source map flag "@ + decimal(b[p] as nat))
    }
}

/// Decoding of the AOT metadata sidecar, the last field.
#[verifier::opaque]
pub open spec fn decode_aot(
    b: Seq<u8>,
    p: int,
    executable: Seq<u8>,
    offsets: Seq<usize>,
    executable_offsets: Seq<usize>,
    wasm_offsets: Seq<u64>,
) -> CacheDecoding {
    if b.len() < p + 8 {
        CacheDecoding::Io(io_text("compilationcache: could not read aot metadata length"@))
    } else {
        let n = u64_le_at(b, p) as int;
        let q = p + 8;
        if n > b.len() - q {
            CacheDecoding::InvalidHeader("compilationcache: invalid aot metadata length"@)
        } else {
            CacheDecoding::Decoded(
                CachedModuleModel {
                    executable,
                    function_offsets: offsets,
                    executable_offsets,
                    wasm_binary_offsets: wasm_offsets,
                    aot: b.subrange(q, q + n),
                },
            )
        }
    }
}

/// The result of decoding, as the exec decoder reports it.
pub open spec fn decode_result_matches(
    d: CacheDecoding,
    res: Result<Option<CachedCompiledModule>, EngineCacheError>,
) -> bool {
    match d {
        CacheDecoding::Decoded(m) => res matches Ok(Some(c)) && c.model() == m,
        CacheDecoding::Stale => res matches Ok(None),
        _ => res matches Err(e) && decode_error_matches(d, e),
    }
}

// ----- serializer -----

fn push_cache_magic(buf: &mut Vec<u8>)
    ensures
        final(buf)@ == old(buf)@ + cache_magic(),
{
    buf.push(0x57);
    buf.push(0x41);
    buf.push(0x5a);
    buf.push(0x45);
    buf.push(0x56);
    buf.push(0x4f);
    assert(buf@ =~= old(buf)@ + cache_magic());
}

/// Encodes a compiled module as a cache entry stamped with `version`.
#[verifier::rlimit(100)]
pub fn serialize_compiled_module(
    version: &str,
    executable: &[u8],
    function_offsets: &[usize],
    source_map: &SourceMap,
    aot: &[u8],
) -> (res: Vec<u8>)
    ensures
        res@ == encode_cache(
            encode_utf8(version@),
            executable@,
            function_offsets@,
            source_map.executable_offsets@,
            source_map.wasm_binary_offsets@,
            aot@,
        ),
{
    let version_bytes = version.as_bytes();
    let mut buf: Vec<u8> = Vec::new();
    push_cache_magic(&mut buf);
    buf.push(version_bytes.len() as u8);
    push_all(&mut buf, version_bytes);
    push_u32_le(&mut buf, function_offsets.len() as u32);
    let ghost before_offsets = buf@;
    let mut i: usize = 0;
    while i < function_offsets.len()
        invariant
            i <= function_offsets.len(),
            buf@ == before_offsets + encode_offsets(function_offsets@.subrange(0, i as int)),
        decreases function_offsets.len() - i,
    {
        push_u64_le(&mut buf, function_offsets[i] as u64);
        proof {
            let t = function_offsets@.subrange(0, i + 1);
            assert(t.drop_last() =~= function_offsets@.subrange(0, i as int));
        }
        i = i + 1;
    }
    assert(function_offsets@.subrange(0, function_offsets.len() as int) =~= function_offsets@);
    push_u64_le(&mut buf, executable.len() as u64);
    push_all(&mut buf, executable);
    push_u32_le(&mut buf, crc32c(executable));
    let exec_offsets = &source_map.executable_offsets;
    let wasm_offsets = &source_map.wasm_binary_offsets;
    let ghost before_map = buf@;
    if exec_offsets.len() == 0 {
        buf.push(0);
    } else {
        buf.push(1);
        push_u64_le(&mut buf, exec_offsets.len() as u64);
        let n = if exec_offsets.len() <= wasm_offsets.len() {
            exec_offsets.len()
        } else {
            wasm_offsets.len()
        };
        let ghost before_pairs = buf@;
        let mut j: usize = 0;
        while j < n
            invariant
                j <= n,
                n <= exec_offsets@.len(),
                n <= wasm_offsets@.len(),
                buf@ == before_pairs + encode_source_pairs(
                    wasm_offsets@,
                    exec_offsets@,
                    j as nat,
                ),
            decreases n - j,
        {
            push_u64_le(&mut buf, wasm_offsets[j]);
            push_u64_le(&mut buf, exec_offsets[j] as u64);
            j = j + 1;
        }
    }
    assert(buf@ =~= before_map + source_map_bytes(exec_offsets@, wasm_offsets@));
    push_u64_le(&mut buf, aot.len() as u64);
    push_all(&mut buf, aot);
    assert(buf@ =~= encode_cache(
        encode_utf8(version@),
        executable@,
        function_offsets@,
        exec_offsets@,
        wasm_offsets@,
        aot@,
    ));
    buf
}

// ----- decoder -----

fn io_error(context: &str) -> (e: EngineCacheError)
    ensures
        e matches EngineCacheError::Io(m) && m@ == context@ + ": failed to fill whole buffer"@,
{
    let mut m = string_of(context);
    push_str(&mut m, ": failed to fill whole buffer");
    EngineCacheError::Io(m)
}

fn invalid_header(context: &str) -> (e: EngineCacheError)
    ensures
        e matches EngineCacheError::InvalidHeader(m) && m@ == context@,
{
    EngineCacheError::InvalidHeader(string_of(context))
}

/// Checks that `len` elements of `element_size` bytes fit in what is left
/// after `pos`; nothing is left past the end.
fn checked_vec_len(total: usize, pos: usize, len: u64, element_size: usize, context: &str) -> (res:
    Result<usize, EngineCacheError>)
    ensures
        res is Ok <==> len <= usize::MAX && len * element_size <= (if pos <= total {
            total - pos
        } else {
            0
        }),
        res matches Ok(n) ==> n == len,
        res matches Err(e) ==> e matches EngineCacheError::InvalidHeader(m) && m@ == context@,
{
    let rem = if pos <= total {
        total - pos
    } else {
        0
    };
    if len > usize::MAX as u64 {
        return Err(invalid_header(context));
    }
    assert((len as int) * (element_size as int) < 0x1_0000_0000_0000_0000_0000_0000_0000_0000)
        by (nonlinear_arith)
        requires
            len < 0x1_0000_0000_0000_0000,
            element_size < 0x1_0000_0000_0000_0000,
    ;
    let need: u128 = (len as u128) * (element_size as u128);
    if need > rem as u128 {
        Err(invalid_header(context))
    } else {
        Ok(len as usize)
    }
}

/// Whether `b` holds `v` at `start`.
fn bytes_equal_at(b: &[u8], start: usize, v: &[u8]) -> (res: bool)
    requires
        start + v@.len() <= b@.len(),
    ensures
        res == (b@.subrange(start as int, start + v@.len()) == v@),
{
    let _total = b.len();
    let mut i: usize = 0;
    while i < v.len()
        invariant
            i <= v@.len(),
            start + v@.len() <= b@.len(),
            b@.len() <= usize::MAX,
            forall|k: int| 0 <= k < i ==> b@[start + k] == v@[k],
        decreases v.len() - i,
    {
        if b[start + i] != v[i] {
            assert(b@.subrange(start as int, start + v@.len())[i as int] != v@[i as int]);
            return false;
        }
        i = i + 1;
    }
    assert(b@.subrange(start as int, start + v@.len()) =~= v@);
    true
}

/// A copy of `b[start..start + n]`.
fn copy_range(b: &[u8], start: usize, n: usize) -> (res: Vec<u8>)
    requires
        start + n <= b@.len(),
    ensures
        res@ == b@.subrange(start as int, start + n),
{
    let _total = b.len();
    let mut v: Vec<u8> = Vec::with_capacity(n);
    let mut i: usize = 0;
    while i < n
        invariant
            i <= n,
            start + n <= b@.len(),
            b@.len() <= usize::MAX,
            v@ == b@.subrange(start as int, start + i),
        decreases n - i,
    {
        v.push(b[start + i]);
        i = i + 1;
        assert(v@ =~= b@.subrange(start as int, start + i));
    }
    v
}

/// Decodes a cache entry written for `version`: `Ok(None)` when it was written
/// for another version, `Ok(Some(..))` with its content, or the error that the
/// first malformed field gives.
pub fn deserialize_compiled_module(version: &str, bytes: &[u8]) -> (res: Result<
    Option<CachedCompiledModule>,
    EngineCacheError,
>)
    ensures
        decode_result_matches(decode_cache(encode_utf8(version@), bytes@), res),
{
    let v = version.as_bytes();
    let b = bytes;
    if b.len() < 6 {
        return Err(io_error("compilationcache: invalid header length"));
    }
    if !(b[0] == 0x57 && b[1] == 0x41 && b[2] == 0x5a && b[3] == 0x45 && b[4] == 0x56 && b[5]
        == 0x4f) {
        proof {
            if b@.subrange(0, 6) == cache_magic() {
                assert(b@[0] == b@.subrange(0, 6)[0]);
                assert(b@[1] == b@.subrange(0, 6)[1]);
                assert(b@[2] == b@.subrange(0, 6)[2]);
                assert(b@[3] == b@.subrange(0, 6)[3]);
                assert(b@[4] == b@.subrange(0, 6)[4]);
                assert(b@[5] == b@.subrange(0, 6)[5]);
            }
        }
        let mut m = string_of("compilationcache: invalid magic number: got ");
        let magic = copy_range(b, 0, 6);
        let got = string_from_utf8_lossy(magic.as_slice());
        push_str(&mut m, got.as_str());
        push_str(&mut m, " but want WAZEVO");
        assert(m@ == magic_text(got@));
        return Err(EngineCacheError::InvalidHeader(m));
    }
    assert(b@.subrange(0, 6) =~= cache_magic());
    if b.len() < 7 {
        return Err(io_error("compilationcache: invalid header length"));
    }
    let version_len = b[6] as usize;
    if b.len() - 7 < version_len {
        return Err(io_error("compilationcache: invalid header length"));
    }
    if version_len != v.len() || !bytes_equal_at(b, 7, v) {
        proof {
            if b@.subrange(7, 7 + b@[6]) == v@ {
                assert(b@.subrange(7, 7 + b@[6]).len() == v@.len());
            }
        }
        return Ok(None);
    }
    decode_functions_exec(b, 7 + version_len)
}

/// Why an AOT metadata sidecar does not decode: a malformed header, or a
/// field that runs out of bytes.
#[derive(Clone, Debug, PartialEq, Eq)]
pub enum AotMetadataError {
    InvalidHeader(String),
    Io(String),
}

/// A cache entry with its AOT metadata sidecar decoded.
#[derive(Clone, Debug, PartialEq, Eq)]
pub struct DecodedCompiledModule {
    pub executable: Vec<u8>,
    pub function_offsets: Vec<usize>,
    pub source_map: SourceMap,
    pub aot: AotCompiledMetadata,
}

/// Completes a decoded cache entry with what decoding its AOT metadata
/// sidecar gave: the entry with the metadata, or, when the sidecar does not
/// decode, an `AotMetadata` error with the decoder's message.
pub fn attach_aot_metadata(
    cached: CachedCompiledModule,
    decoded: Result<AotCompiledMetadata, AotMetadataError>,
) -> (res: Result<DecodedCompiledModule, EngineCacheError>)
    ensures
        match decoded {
            Ok(m) => res matches Ok(d) && d.aot == m && d.executable@ == cached.executable@
                && d.function_offsets@ == cached.function_offsets@ && d.source_map == cached.source_map,
            Err(AotMetadataError::InvalidHeader(message)) => res matches Err(e) && e
                == EngineCacheError::AotMetadata(message),
            Err(AotMetadataError::Io(message)) => res matches Err(e) && e == EngineCacheError::AotMetadata(
                message,
            ),
        },
{
    match decoded {
        Ok(aot) => Ok(
            DecodedCompiledModule {
                executable: cached.executable,
                function_offsets: cached.function_offsets,
                source_map: cached.source_map,
                aot,
            },
        ),
        Err(AotMetadataError::InvalidHeader(message)) => Err(EngineCacheError::AotMetadata(message)),
        Err(AotMetadataError::Io(message)) => Err(EngineCacheError::AotMetadata(message)),
    }
}

fn decode_functions_exec(b: &[u8], p: usize) -> (res: Result<
    Option<CachedCompiledModule>,
    EngineCacheError,
>)
    requires
        p <= b@.len(),
    ensures
        decode_result_matches(decode_functions(b@, p as int), res),
{
    reveal(decode_functions);
    if b.len() - p < 4 {
        return Err(io_error("compilationcache: invalid header length"));
    }
    let count = read_u32_le_at(b, p) as u64;
    let q = p + 4;
    let n = match checked_vec_len(
        b.len(),
        q,
        count,
        8,
        "compilationcache: invalid function offset table length",
    ) {
        Ok(n) => n,
        Err(e) => return Err(e),
    };
    let mut offsets: Vec<usize> = Vec::with_capacity(n);
    let mut i: usize = 0;
    while i < n
        invariant
            i <= n,
            q + n * 8 <= b@.len(),
            b@.len() <= usize::MAX,
            offsets@ =~= Seq::new(i as nat, |k: int| u64_le_at(b@, q + 8 * k) as usize),
        decreases n - i,
    {
        assert(q + 8 * i + 8 <= b@.len()) by (nonlinear_arith)
            requires
                i < n,
                q + n * 8 <= b@.len(),
        ;
        let value = read_u64_le_at(b, q + 8 * i);
        offsets.push(value as usize);
        i = i + 1;
    }
    decode_executable_exec(b, q + n * 8, offsets)
}

fn decode_executable_exec(b: &[u8], p: usize, offsets: Vec<usize>) -> (res: Result<
    Option<CachedCompiledModule>,
    EngineCacheError,
>)
    requires
        p <= b@.len(),
    ensures
        decode_result_matches(decode_executable(b@, p as int, offsets@), res),
{
    reveal(decode_executable);
    if b.len() - p < 8 {
        return Err(io_error("compilationcache: error reading executable size"));
    }
    let len = read_u64_le_at(b, p);
    let q = p + 8;
    let n = match checked_vec_len(b.len(), q, len, 1, "compilationcache: invalid executable size")
    {
        Ok(n) => n,
        Err(e) => return Err(e),
    };
    let executable = copy_range(b, q, n);
    let r = q + n;
    if b.len() - r < 4 {
        return Err(io_error("compilationcache: could not read checksum"));
    }
    let expected = crc32c(executable.as_slice());
    let actual = read_u32_le_at(b, r);
    if expected != actual {
        return Err(EngineCacheError::ChecksumMismatch { expected, actual });
    }
    decode_source_map_exec(b, r + 4, executable, offsets)
}

fn decode_source_map_exec(b: &[u8], p: usize, executable: Vec<u8>, offsets: Vec<usize>) -> (res:
    Result<Option<CachedCompiledModule>, EngineCacheError>)
    requires
        p <= b@.len(),
    ensures
        decode_result_matches(decode_source_map(b@, p as int, executable@, offsets@), res),
{
    reveal(decode_source_map);
    if b.len() - p < 1 {
        return Err(io_error("compilationcache: invalid header length"));
    }
    let flag = b[p];
    if flag == 0 {
        decode_aot_exec(
            b,
            p + 1,
            executable,
            offsets,
            SourceMap { executable_offsets: Vec::new(), wasm_binary_offsets: Vec::new() },
        )
    } else if flag == 1 {
        if b.len() - (p + 1) < 8 {
            return Err(io_error("compilationcache: could not read source map length"));
        }
        let len = read_u64_le_at(b, p + 1);
        let q = p + 9;
        let n = match checked_vec_len(
            b.len(),
            q,
            len,
            16,
            "compilationcache: invalid source map length",
        ) {
            Ok(n) => n,
            Err(e) => return Err(e),
        };
        let mut executable_offsets: Vec<usize> = Vec::with_capacity(n);
        let mut wasm_binary_offsets: Vec<u64> = Vec::with_capacity(n);
        let mut i: usize = 0;
        while i < n
            invariant
                i <= n,
                q + n * 16 <= b@.len(),
                b@.len() <= usize::MAX,
                executable_offsets@ =~= Seq::new(
                    i as nat,
                    |k: int| u64_le_at(b@, q + 16 * k + 8) as usize,
                ),
                wasm_binary_offsets@ =~= Seq::new(i as nat, |k: int| u64_le_at(b@, q + 16 * k)),
            decreases n - i,
        {
            assert(q + 16 * i + 16 <= b@.len()) by (nonlinear_arith)
                requires
                    i < n,
                    q + n * 16 <= b@.len(),
            ;
            let wasm = read_u64_le_at(b, q + 16 * i);
            let exe = read_u64_le_at(b, q + 16 * i + 8);
            wasm_binary_offsets.push(wasm);
            executable_offsets.push(exe as usize);
            i = i + 1;
        }
        decode_aot_exec(
            b,
            q + n * 16,
            executable,
            offsets,
            SourceMap { executable_offsets, wasm_binary_offsets },
        )
    } else {
        let mut m = string_of("compilationcache: invalid source map flag ");
        push_decimal(&mut m, flag as u64);
        Err(EngineCacheError::InvalidHeader(m))
    }
}

fn decode_aot_exec(
    b: &[u8],
    p: usize,
    executable: Vec<u8>,
    offsets: Vec<usize>,
    source_map: SourceMap,
) -> (res: Result<Option<CachedCompiledModule>, EngineCacheError>)
    requires
        p <= b@.len(),
    ensures
        decode_result_matches(
            decode_aot(
                b@,
                p as int,
                executable@,
                offsets@,
                source_map.executable_offsets@,
                source_map.wasm_binary_offsets@,
            ),
            res,
        ),
{
    reveal(decode_aot);
    if b.len() - p < 8 {
        return Err(io_error("compilationcache: could not read aot metadata length"));
    }
    let len = read_u64_le_at(b, p);
    let q = p + 8;
    let n = match checked_vec_len(
        b.len(),
        q,
        len,
        1,
        "compilationcache: invalid aot metadata length",
    ) {
        Ok(n) => n,
        Err(e) => return Err(e),
    };
    let aot = copy_range(b, q, n);
    Ok(Some(CachedCompiledModule { executable, function_offsets: offsets, source_map, aot }))
}

// ----- round trip -----

proof fn lemma_encode_offsets_len(offsets: Seq<usize>)
    ensures
        encode_offsets(offsets).len() == 8 * offsets.len(),
    decreases offsets.len(),
{
    if offsets.len() > 0 {
        lemma_encode_offsets_len(offsets.drop_last());
    }
}

proof fn lemma_encode_offsets_read(a: Seq<u8>, offsets: Seq<usize>, c: Seq<u8>, i: int)
    requires
        0 <= i < offsets.len(),
    ensures
        u64_le_at(a + (encode_offsets(offsets) + c), a.len() + 8 * i) == offsets[i] as u64,
    decreases offsets.len(),
{
    let init = offsets.drop_last();
    let e = encode_offsets(init);
    let l = le_u64(offsets.last() as u64);
    lemma_encode_offsets_len(init);
    if i == offsets.len() - 1 {
        assert(a + (encode_offsets(offsets) + c) =~= (a + e) + (l + c));
        lemma_u64_le_at_encoding(a + e, offsets.last() as u64, c);
    } else {
        assert(a + (encode_offsets(offsets) + c) =~= a + (e + (l + c)));
        lemma_encode_offsets_read(a, init, l + c, i);
    }
}

proof fn lemma_encode_pairs_len(wasm: Seq<u64>, executable: Seq<usize>, n: nat)
    ensures
        encode_source_pairs(wasm, executable, n).len() == 16 * n,
    decreases n,
{
    if n > 0 {
        lemma_encode_pairs_len(wasm, executable, (n - 1) as nat);
    }
}

proof fn lemma_encode_pairs_read(
    a: Seq<u8>,
    wasm: Seq<u64>,
    executable: Seq<usize>,
    n: nat,
    c: Seq<u8>,
    i: int,
)
    requires
        0 <= i < n,
        n <= wasm.len(),
        n <= executable.len(),
    ensures
        u64_le_at(a + (encode_source_pairs(wasm, executable, n) + c), a.len() + 16 * i)
            == wasm[i],
        u64_le_at(a + (encode_source_pairs(wasm, executable, n) + c), a.len() + 16 * i + 8)
            == executable[i] as u64,
    decreases n,
{
    let m = (n - 1) as nat;
    let e = encode_source_pairs(wasm, executable, m);
    let lw = le_u64(wasm[m as int]);
    let lx = le_u64(executable[m as int] as u64);
    lemma_encode_pairs_len(wasm, executable, m);
    if i == m {
        assert(a + (encode_source_pairs(wasm, executable, n) + c) =~= (a + e) + (lw + (lx + c)));
        lemma_u64_le_at_encoding(a + e, wasm[m as int], lx + c);
        assert(a + (encode_source_pairs(wasm, executable, n) + c) =~= (a + e + lw) + (lx + c));
        lemma_u64_le_at_encoding(a + e + lw, executable[m as int] as u64, c);
    } else {
        assert(a + (encode_source_pairs(wasm, executable, n) + c) =~= a + (e + (lw + (lx + c))));
        lemma_encode_pairs_read(a, wasm, executable, m, lw + (lx + c), i);
    }
}

proof fn lemma_add_assoc(a: Seq<u8>, b: Seq<u8>, c: Seq<u8>)
    ensures
        a + (b + c) == (a + b) + c,
{
    assert(a + (b + c) =~= (a + b) + c);
}

proof fn lemma_decode_aot_part(
    pre: Seq<u8>,
    aot: Seq<u8>,
    executable: Seq<u8>,
    offsets: Seq<usize>,
    executable_offsets: Seq<usize>,
    wasm_offsets: Seq<u64>,
)
    requires
        aot.len() <= u64::MAX,
    ensures
        decode_aot(
            pre + (le_u64(aot.len() as u64) + aot),
            pre.len() as int,
            executable,
            offsets,
            executable_offsets,
            wasm_offsets,
        ) == CacheDecoding::Decoded(
            CachedModuleModel {
                executable,
                function_offsets: offsets,
                executable_offsets,
                wasm_binary_offsets: wasm_offsets,
                aot,
            },
        ),
{
    reveal(decode_aot);
    let b = pre + (le_u64(aot.len() as u64) + aot);
    lemma_u64_le_at_encoding(pre, aot.len() as u64, aot);
    let q: int = pre.len() as int + 8;
    assert(b.subrange(q, q + aot.len()) =~= aot);
}

proof fn lemma_decode_source_map_part(
    pre: Seq<u8>,
    executable_offsets: Seq<usize>,
    wasm_offsets: Seq<u64>,
    aot: Seq<u8>,
    executable: Seq<u8>,
    offsets: Seq<usize>,
)
    requires
        aot.len() <= u64::MAX,
        executable_offsets.len() == wasm_offsets.len(),
        executable_offsets.len() <= u64::MAX,
    ensures
        decode_source_map(
            pre + encode_after_checksum(executable_offsets, wasm_offsets, aot),
            pre.len() as int,
            executable,
            offsets,
        ) == CacheDecoding::Decoded(
            CachedModuleModel {
                executable,
                function_offsets: offsets,
                executable_offsets,
                wasm_binary_offsets: wasm_offsets,
                aot,
            },
        ),
{
    reveal(decode_source_map);
    let tail = le_u64(aot.len() as u64) + aot;
    let b = pre + encode_after_checksum(executable_offsets, wasm_offsets, aot);
    let p = pre.len() as int;
    if executable_offsets.len() == 0 {
        lemma_add_assoc(pre, seq![0u8], tail);
        assert(b[p] == 0);
        assert(wasm_offsets =~= seq![]);
        assert(executable_offsets =~= seq![]);
        lemma_decode_aot_part(pre + seq![0u8], aot, executable, offsets, seq![], seq![]);
    } else {
        lemma_source_map_nonempty(pre, executable_offsets, wasm_offsets, aot, executable, offsets);
    }
}

proof fn lemma_pairs_decode(a: Seq<u8>, wasm: Seq<u64>, executable: Seq<usize>, tail: Seq<u8>)
    requires
        wasm.len() == executable.len(),
    ensures
        ({
            let b = a + (encode_source_pairs(wasm, executable, executable.len()) + tail);
            let q = a.len() as int;
            &&& Seq::new(executable.len(), |i: int| u64_le_at(b, q + 16 * i + 8) as usize)
                == executable
            &&& Seq::new(executable.len(), |i: int| u64_le_at(b, q + 16 * i)) == wasm
        }),
{
    let n = executable.len();
    let b = a + (encode_source_pairs(wasm, executable, n) + tail);
    let q = a.len() as int;
    assert forall|i: int| 0 <= i < n implies #[trigger] executable[i] == u64_le_at(
        b,
        q + 16 * i + 8,
    ) as usize by {
        lemma_encode_pairs_read(a, wasm, executable, n, tail, i);
    }
    assert forall|i: int| 0 <= i < n implies #[trigger] wasm[i] == u64_le_at(b, q + 16 * i) by {
        lemma_encode_pairs_read(a, wasm, executable, n, tail, i);
    }
    assert(Seq::new(n, |i: int| u64_le_at(b, q + 16 * i + 8) as usize) =~= executable);
    assert(Seq::new(n, |i: int| u64_le_at(b, q + 16 * i)) =~= wasm);
}

#[verifier::spinoff_prover]
#[verifier::rlimit(40)]
proof fn lemma_source_map_nonempty(
    pre: Seq<u8>,
    executable_offsets: Seq<usize>,
    wasm_offsets: Seq<u64>,
    aot: Seq<u8>,
    executable: Seq<u8>,
    offsets: Seq<usize>,
)
    requires
        aot.len() <= u64::MAX,
        executable_offsets.len() == wasm_offsets.len(),
        executable_offsets.len() <= u64::MAX,
        executable_offsets.len() > 0,
    ensures
        decode_source_map(
            pre + encode_after_checksum(executable_offsets, wasm_offsets, aot),
            pre.len() as int,
            executable,
            offsets,
        ) == CacheDecoding::Decoded(
            CachedModuleModel {
                executable,
                function_offsets: offsets,
                executable_offsets,
                wasm_binary_offsets: wasm_offsets,
                aot,
            },
        ),
{
    let tail = le_u64(aot.len() as u64) + aot;
    let b = pre + encode_after_checksum(executable_offsets, wasm_offsets, aot);
    let p = pre.len() as int;
    let n = executable_offsets.len();
    let one = seq![1u8];
    let len_bytes = le_u64(n as u64);
    let pairs = encode_source_pairs(wasm_offsets, executable_offsets, n);
    lemma_encode_pairs_len(wasm_offsets, executable_offsets, n);
    let r = pairs + tail;
    lemma_add_assoc(one + len_bytes, pairs, tail);
    lemma_add_assoc(one, len_bytes, r);
    lemma_add_assoc(pre, one, len_bytes + r);
    let a = (pre + one) + len_bytes;
    lemma_add_assoc(pre + one, len_bytes, r);
    assert(b == (pre + one) + (len_bytes + r));
    assert(b == a + r);
    assert(b[p] == 1);
    lemma_u64_le_at_encoding(pre + one, n as u64, r);
    lemma_pairs_decode(a, wasm_offsets, executable_offsets, tail);
    lemma_add_assoc(a, pairs, tail);
    lemma_decode_aot_part(a + pairs, aot, executable, offsets, executable_offsets, wasm_offsets);
    reveal(decode_source_map);
}

proof fn lemma_decode_executable_part(
    pre: Seq<u8>,
    executable: Seq<u8>,
    rest: Seq<u8>,
    offsets: Seq<usize>,
)
    requires
        executable.len() <= u64::MAX,
    ensures
        decode_executable(
            pre + (le_u64(executable.len() as u64) + (executable + (le_u32(spec_crc32c(executable))
                + rest))),
            pre.len() as int,
            offsets,
        ) == decode_source_map(
            pre + (le_u64(executable.len() as u64) + (executable + (le_u32(spec_crc32c(executable))
                + rest))),
            (pre.len() + 8 + executable.len() + 4) as int,
            executable,
            offsets,
        ),
{
    reveal(decode_executable);
    let crc = spec_crc32c(executable);
    let lx = le_u64(executable.len() as u64);
    let lc = le_u32(crc);
    let b = pre + (lx + (executable + (lc + rest)));
    lemma_u64_le_at_encoding(pre, executable.len() as u64, executable + (lc + rest));
    let x0: int = pre.len() as int + 8;
    assert(b.subrange(x0, x0 + executable.len()) =~= executable);
    lemma_add_assoc(pre, lx, executable + (lc + rest));
    lemma_add_assoc(pre + lx, executable, lc + rest);
    let hx = pre + lx + executable;
    assert(b == hx + (lc + rest));
    lemma_u32_le_at_encoding(hx, crc, rest);
}

proof fn lemma_decode_functions_part(pre: Seq<u8>, offsets: Seq<usize>, rest: Seq<u8>)
    requires
        offsets.len() <= u32::MAX,
    ensures
        decode_functions(
            pre + (le_u32(offsets.len() as u32) + (encode_offsets(offsets) + rest)),
            pre.len() as int,
        ) == decode_executable(
            pre + (le_u32(offsets.len() as u32) + (encode_offsets(offsets) + rest)),
            (pre.len() + 4 + 8 * offsets.len()) as int,
            offsets,
        ),
{
    reveal(decode_functions);
    let lf = le_u32(offsets.len() as u32);
    let b = pre + (lf + (encode_offsets(offsets) + rest));
    lemma_u32_le_at_encoding(pre, offsets.len() as u32, encode_offsets(offsets) + rest);
    lemma_encode_offsets_len(offsets);
    let hf = pre + lf;
    let q: int = pre.len() as int + 4;
    lemma_add_assoc(pre, lf, encode_offsets(offsets) + rest);
    assert(b == hf + (encode_offsets(offsets) + rest));
    assert forall|i: int| 0 <= i < offsets.len() implies #[trigger] offsets[i] == u64_le_at(
        b,
        q + 8 * i,
    ) as usize by {
        lemma_encode_offsets_read(hf, offsets, rest, i);
    }
    assert(Seq::new(offsets.len(), |i: int| u64_le_at(b, q + 8 * i) as usize) =~= offsets);
}

/// Decoding a cache entry gives back exactly what was encoded, when the
/// version fits the one-byte length field, the offset table fits its `u32`
/// count, and the source map pairs every executable offset with a wasm offset.
pub proof fn lemma_cache_round_trip(
    version: Seq<u8>,
    executable: Seq<u8>,
    offsets: Seq<usize>,
    executable_offsets: Seq<usize>,
    wasm_offsets: Seq<u64>,
    aot: Seq<u8>,
)
    requires
        version.len() <= 255,
        offsets.len() <= u32::MAX,
        executable.len() <= u64::MAX,
        aot.len() <= u64::MAX,
        executable_offsets.len() == wasm_offsets.len(),
        executable_offsets.len() <= u64::MAX,
    ensures
        decode_cache(
            version,
            encode_cache(version, executable, offsets, executable_offsets, wasm_offsets, aot),
        ) == CacheDecoding::Decoded(
            CachedModuleModel {
                executable,
                function_offsets: offsets,
                executable_offsets,
                wasm_binary_offsets: wasm_offsets,
                aot,
            },
        ),
{
    let after_c = encode_after_checksum(executable_offsets, wasm_offsets, aot);
    let after_o = encode_after_offsets(executable, executable_offsets, wasm_offsets, aot);
    let after_v = encode_after_version(executable, offsets, executable_offsets, wasm_offsets, aot);
    let m = cache_magic();
    let vl = seq![version.len() as u8];
    let b = encode_cache(version, executable, offsets, executable_offsets, wasm_offsets, aot);
    assert(b == m + (vl + (version + after_v)));
    assert(b.subrange(0, 6) =~= m);
    assert(b[6] == version.len() as u8);
    assert(b.subrange(7, 7 + b[6]) =~= version);
    lemma_add_assoc(m, vl, version + after_v);
    lemma_add_assoc(m + vl, version, after_v);
    let hv = m + vl + version;
    assert(b == hv + after_v);
    let lf = le_u32(offsets.len() as u32);
    let eo = encode_offsets(offsets);
    assert(after_v == lf + (eo + after_o));
    lemma_decode_functions_part(hv, offsets, after_o);
    lemma_encode_offsets_len(offsets);
    lemma_add_assoc(hv, lf, eo + after_o);
    lemma_add_assoc(hv + lf, eo, after_o);
    let ho = hv + lf + eo;
    assert(b == ho + after_o);
    let lx = le_u64(executable.len() as u64);
    let lc = le_u32(spec_crc32c(executable));
    assert(after_o == lx + (executable + (lc + after_c)));
    lemma_decode_executable_part(ho, executable, after_c, offsets);
    lemma_add_assoc(ho, lx, executable + (lc + after_c));
    lemma_add_assoc(ho + lx, executable, lc + after_c);
    lemma_add_assoc(ho + lx + executable, lc, after_c);
    let hc = ho + lx + executable + lc;
    assert(b == hc + after_c);
    lemma_decode_source_map_part(hc, executable_offsets, wasm_offsets, aot, executable, offsets);
}

/// Decoding an entry with another version than the one it was written for
/// reports it as stale.
pub proof fn lemma_cache_version_mismatch_is_stale(
    written: Seq<u8>,
    wanted: Seq<u8>,
    executable: Seq<u8>,
    offsets: Seq<usize>,
    executable_offsets: Seq<usize>,
    wasm_offsets: Seq<u64>,
    aot: Seq<u8>,
)
    requires
        written.len() <= 255,
        written != wanted,
    ensures
        decode_cache(
            wanted,
            encode_cache(written, executable, offsets, executable_offsets, wasm_offsets, aot),
        ) == CacheDecoding::Stale,
{
    let after_v = encode_after_version(executable, offsets, executable_offsets, wasm_offsets, aot);
    let b = encode_cache(written, executable, offsets, executable_offsets, wasm_offsets, aot);
    assert(b.subrange(0, 6) =~= cache_magic());
    assert(b[6] == written.len() as u8);
    assert(b.subrange(7, 7 + b[6]) =~= written);
}

// ----- precompiled artifacts -----

/// What decoding gives, as `PrecompiledModuleArtifact::deserialize` reports it.
pub open spec fn artifact_result_matches(
    d: CacheDecoding,
    res: Result<Option<PrecompiledModuleArtifact>, EngineCacheError>,
) -> bool {
    match d {
        CacheDecoding::Decoded(m) => res matches Ok(Some(c)) && c.model() == m,
        CacheDecoding::Stale => res matches Ok(None),
        _ => res matches Err(e) && decode_error_matches(d, e),
    }
}

impl vstd::std_specs::convert::FromSpecImpl<CachedCompiledModule> for PrecompiledModuleArtifact {
    open spec fn obeys_from_spec() -> bool {
        true
    }

    open spec fn from_spec(value: CachedCompiledModule) -> Self {
        PrecompiledModuleArtifact {
            executable: value.executable,
            function_offsets: value.function_offsets,
            source_map: value.source_map,
            aot: value.aot,
        }
    }
}

impl From<CachedCompiledModule> for PrecompiledModuleArtifact {
    fn from(value: CachedCompiledModule) -> (res: Self) {
        PrecompiledModuleArtifact {
            executable: value.executable,
            function_offsets: value.function_offsets,
            source_map: value.source_map,
            aot: value.aot,
        }
    }
}

impl PrecompiledModuleArtifact {
    /// The cache encoding of this artifact, stamped with this crate's version.
    pub fn serialize(&self) -> (res: Vec<u8>)
        ensures
            res@ == encode_cache(
                encode_utf8("0.0.0"@),
                self.executable@,
                self.function_offsets@,
                self.source_map.executable_offsets@,
                self.source_map.wasm_binary_offsets@,
                self.aot@,
            ),
    {
        serialize_compiled_module(
            package_version(),
            self.executable.as_slice(),
            self.function_offsets.as_slice(),
            &self.source_map,
            self.aot.as_slice(),
        )
    }

    /// Decodes an artifact written by this crate's version: `Ok(None)` when it
    /// was written by another version.
    pub fn deserialize(bytes: &[u8]) -> (res: Result<Option<Self>, EngineCacheError>)
        ensures
            artifact_result_matches(decode_cache(encode_utf8("0.0.0"@), bytes@), res),
    {
        match deserialize_compiled_module(package_version(), bytes) {
            Ok(Some(cached)) => Ok(Some(PrecompiledModuleArtifact::from(cached))),
            Ok(None) => Ok(None),
            Err(e) => Err(e),
        }
    }
}

// ----- cache keys -----

/// XORs `salt` byte by byte into `key`, wrapping around its length.
pub open spec fn xor_salt(key: Seq<u8>, salt: Seq<u8>) -> Seq<u8>
    decreases salt.len(),
{
    if salt.len() == 0 {
        key
    } else {
        let k = xor_salt(key, salt.drop_last());
        let i = (salt.len() - 1) % 32;
        k.update(i, k[i] ^ salt.last())
    }
}

/// The cache key of a module: its id salted with the magic and the machine
/// architecture, with one bit flipped for each of memory isolation and fuel.
pub open spec fn spec_file_cache_key(
    module_id: Seq<u8>,
    arch: Seq<u8>,
    memory_isolation_enabled: bool,
    fuel_enabled: bool,
) -> Seq<u8> {
    let k = xor_salt(module_id, cache_magic() + arch);
    let k1 = if memory_isolation_enabled {
        k.update(0, k[0] ^ 0x80u8)
    } else {
        k
    };
    if fuel_enabled {
        k1.update(1, k1[1] ^ 0x40u8)
    } else {
        k1
    }
}

proof fn lemma_xor_salt_len(key: Seq<u8>, salt: Seq<u8>)
    requires
        key.len() == 32,
    ensures
        xor_salt(key, salt).len() == 32,
    decreases salt.len(),
{
    if salt.len() > 0 {
        lemma_xor_salt_len(key, salt.drop_last());
    }
}

/// The cache key of a module for the architecture named `arch`.
pub fn file_cache_key(
    module_id: &[u8; 32],
    arch: &str,
    memory_isolation_enabled: bool,
    fuel_enabled: bool,
) -> (res: [u8; 32])
    ensures
        res@ == spec_file_cache_key(
            module_id@,
            encode_utf8(arch@),
            memory_isolation_enabled,
            fuel_enabled,
        ),
{
    let mut key: [u8; 32] = *module_id;
    let arch_bytes = arch.as_bytes();
    let mut salt: Vec<u8> = Vec::new();
    push_cache_magic(&mut salt);
    push_all(&mut salt, arch_bytes);
    let mut i: usize = 0;
    while i < salt.len()
        invariant
            i <= salt@.len(),
            key@.len() == 32,
            key@ == xor_salt(module_id@, salt@.subrange(0, i as int)),
        decreases salt.len() - i,
    {
        proof {
            assert(salt@.subrange(0, i + 1).drop_last() =~= salt@.subrange(0, i as int));
        }
        let j = i % 32;
        key[j] = key[j] ^ salt[i];
        i = i + 1;
    }
    assert(salt@.subrange(0, salt@.len() as int) =~= salt@);
    if memory_isolation_enabled {
        key[0] = key[0] ^ 0x80;
    }
    if fuel_enabled {
        key[1] = key[1] ^ 0x40;
    }
    key
}

/// Keys for the two memory isolation modes differ.
pub proof fn lemma_cache_key_distinguishes_memory_isolation(
    module_id: Seq<u8>,
    arch: Seq<u8>,
    fuel_enabled: bool,
)
    requires
        module_id.len() == 32,
    ensures
        spec_file_cache_key(module_id, arch, false, fuel_enabled) != spec_file_cache_key(
            module_id,
            arch,
            true,
            fuel_enabled,
        ),
{
    let k = xor_salt(module_id, cache_magic() + arch);
    lemma_xor_salt_len(module_id, cache_magic() + arch);
    let x = k[0];
    assert(x ^ 0x80u8 != x) by (bit_vector);
    assert(spec_file_cache_key(module_id, arch, false, fuel_enabled)[0] != spec_file_cache_key(
        module_id,
        arch,
        true,
        fuel_enabled,
    )[0]);
}

/// Keys for the two fuel modes differ.
pub proof fn lemma_cache_key_distinguishes_fuel(
    module_id: Seq<u8>,
    arch: Seq<u8>,
    memory_isolation_enabled: bool,
)
    requires
        module_id.len() == 32,
    ensures
        spec_file_cache_key(module_id, arch, memory_isolation_enabled, false)
            != spec_file_cache_key(module_id, arch, memory_isolation_enabled, true),
{
    let k = xor_salt(module_id, cache_magic() + arch);
    lemma_xor_salt_len(module_id, cache_magic() + arch);
    let k1 = if memory_isolation_enabled {
        k.update(0, k[0] ^ 0x80u8)
    } else {
        k
    };
    let x = k1[1];
    assert(x ^ 0x40u8 != x) by (bit_vector);
    assert(spec_file_cache_key(module_id, arch, memory_isolation_enabled, false)[1]
        != spec_file_cache_key(module_id, arch, memory_isolation_enabled, true)[1]);
}

} // verus!
