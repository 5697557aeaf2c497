//! Relocatable object emission: the call sites that the linker resolves are
//! normalized in the text bytes, and the symbols that name functions are
//! built from the module id and the function indexes.

use vstd::prelude::*;
use crate::aot::{AotRelocationMetadata, AotTargetArchitecture};
use crate::le_bytes::le_u32;
use crate::text::{lemma_decimal_nul_free, lemma_sanitize_nul_free, nul_free, push_str, push_decimal, push_hex2, push_char, push_sanitized, hex2, decimal, sanitize_chars};

verus! {

/// The object bytes of a compiled module and its serialized AOT metadata.
#[derive(Clone, Debug, Eq, PartialEq)]
pub struct RelocatableObjectArtifact {
    pub object_bytes: Vec<u8>,
    pub metadata_sidecar_bytes: Vec<u8>,
}

/// The error of emitting a relocatable object.
#[derive(Clone, Debug, Eq, PartialEq)]
pub struct ObjectEmissionError {
    message: String,
}

impl ObjectEmissionError {
    /// The text of the message.
    pub closed spec fn text(&self) -> Seq<char> {
        self.message@
    }

    pub fn new(message: String) -> (res: Self)
        ensures
            res.text() == message@,
    {
        ObjectEmissionError { message }
    }

    /// The error's message.
    pub fn message(&self) -> (res: String)
        ensures
            res@ == self.text(),
    {
        self.message.clone()
    }
}

/// The decimal rendering of a signed integer.
pub open spec fn signed_decimal(v: i64) -> Seq<char> {
    if v < 0 {
        seq!['-'] + decimal((-v) as nat)
    } else {
        decimal(v as nat)
    }
}

pub fn push_signed_decimal(s: &mut String, v: i64)
    ensures
        final(s)@ == old(s)@ + signed_decimal(v),
{
    if v < 0 {
        push_char(s, '-');
        let magnitude: u64 = (0i128 - v as i128) as u64;
        push_decimal(s, magnitude);
        assert(s@ =~= old(s)@ + signed_decimal(v));
    } else {
        push_decimal(s, v as u64);
    }
}

pub open spec fn invalid_offset_text(offset: i64) -> Seq<char> {
    "invalid negative relocation offset "@ + signed_decimal(offset)
}

pub open spec fn out_of_bounds_text(offset: int, len: int) -> Seq<char> {
    "relocation site at "@ + decimal(offset as nat) + " is out of bounds for "@ + decimal(
        len as nat,
    ) + " bytes"@
}

pub open spec fn architecture_name(a: AotTargetArchitecture) -> Seq<char> {
    match a {
        AotTargetArchitecture::X86_64 => "X86_64"@,
        AotTargetArchitecture::Aarch64 => "Aarch64"@,
        AotTargetArchitecture::Unknown => "Unknown"@,
    }
}

pub fn architecture_name_str(a: AotTargetArchitecture) -> (r: &'static str)
    ensures
        r@ == architecture_name(a),
{
    match a {
        AotTargetArchitecture::X86_64 => "X86_64",
        AotTargetArchitecture::Aarch64 => "Aarch64",
        AotTargetArchitecture::Unknown => "Unknown",
    }
}

fn invalid_offset_error(offset: i64) -> (e: ObjectEmissionError)
    ensures
        e.text() == invalid_offset_text(offset),
{
    let mut s = String::new();
    push_str(&mut s, "invalid negative relocation offset ");
    push_signed_decimal(&mut s, offset);
    assert(s@ =~= invalid_offset_text(offset));
    ObjectEmissionError::new(s)
}

fn out_of_bounds_error(offset: usize, len: usize) -> (e: ObjectEmissionError)
    ensures
        e.text() == out_of_bounds_text(offset as int, len as int),
{
    let mut s = String::new();
    push_str(&mut s, "relocation site at ");
    push_decimal(&mut s, offset as u64);
    push_str(&mut s, " is out of bounds for ");
    push_decimal(&mut s, len as u64);
    push_str(&mut s, " bytes");
    assert(s@ =~= out_of_bounds_text(offset as int, len as int));
    ObjectEmissionError::new(s)
}

/// The offset of an x86-64 call site's 32-bit displacement: one byte past
/// the call opcode.
pub fn x86_64_relocation_offset(relocation: &AotRelocationMetadata) -> (res: Result<u64, ObjectEmissionError>)
    ensures
        relocation.executable_offset >= 0 ==> res == Ok::<u64, ObjectEmissionError>(
            (relocation.executable_offset + 1) as u64,
        ),
        relocation.executable_offset < 0 ==> (res matches Err(e) && e.text() == invalid_offset_text(
            relocation.executable_offset,
        )),
{
    if relocation.executable_offset < 0 {
        return Err(invalid_offset_error(relocation.executable_offset));
    }
    let base = relocation.executable_offset as u64;
    Ok(base + 1)
}

/// The offset of an aarch64 call site: the branch instruction itself.
pub fn aarch64_relocation_offset(relocation: &AotRelocationMetadata) -> (res: Result<u64, ObjectEmissionError>)
    ensures
        relocation.executable_offset >= 0 ==> res == Ok::<u64, ObjectEmissionError>(
            relocation.executable_offset as u64,
        ),
        relocation.executable_offset < 0 ==> (res matches Err(e) && e.text() == invalid_offset_text(
            relocation.executable_offset,
        )),
{
    if relocation.executable_offset < 0 {
        return Err(invalid_offset_error(relocation.executable_offset));
    }
    Ok(relocation.executable_offset as u64)
}

/// The text with one x86-64 call site normalized: the four displacement
/// bytes after the opcode are zeroed.
pub open spec fn x86_64_site(text: Seq<u8>, r: AotRelocationMetadata) -> Result<Seq<u8>, Seq<char>> {
    let off = r.executable_offset as int;
    if off < 0 || off > usize::MAX {
        Err(invalid_offset_text(r.executable_offset))
    } else if off + 5 > text.len() {
        Err(out_of_bounds_text(off, text.len() as int))
    } else {
        Ok(text.take(off + 1) + seq![0u8, 0u8, 0u8, 0u8] + text.skip(off + 5))
    }
}

/// The aarch64 branch word of a call site: `b` for a tail call, `bl`
/// otherwise, with a zero displacement.
pub open spec fn aarch64_branch_word(r: AotRelocationMetadata) -> u32 {
    if r.is_tail_call {
        0x1400_0000u32
    } else {
        0x9400_0000u32
    }
}

/// The text with one aarch64 call site replaced by its branch word.
pub open spec fn aarch64_site(text: Seq<u8>, r: AotRelocationMetadata) -> Result<Seq<u8>, Seq<char>> {
    let off = r.executable_offset as int;
    if off < 0 || off > usize::MAX {
        Err(invalid_offset_text(r.executable_offset))
    } else if off + 4 > text.len() {
        Err(out_of_bounds_text(off, text.len() as int))
    } else {
        Ok(text.take(off) + le_u32(aarch64_branch_word(r)) + text.skip(off + 4))
    }
}

/// The text after the call sites from `i` on are normalized, in order, and
/// the error that stopped it, if any: the sites before the failing one stay
/// normalized.
pub open spec fn sites_from(
    arch: AotTargetArchitecture,
    text: Seq<u8>,
    relocations: Seq<AotRelocationMetadata>,
    i: nat,
) -> (Seq<u8>, Option<Seq<char>>)
    decreases relocations.len() - i,
{
    if i >= relocations.len() {
        (text, None)
    } else {
        let step = if arch == AotTargetArchitecture::X86_64 {
            x86_64_site(text, relocations[i as int])
        } else {
            aarch64_site(text, relocations[i as int])
        };
        match step {
            Err(e) => (text, Some(e)),
            Ok(t2) => sites_from(arch, t2, relocations, i + 1),
        }
    }
}

/// Whether a normalization's outcome matches its specification.
pub open spec fn normalized_as(
    res: Result<(), ObjectEmissionError>,
    text: Seq<u8>,
    spec: (Seq<u8>, Option<Seq<char>>),
) -> bool {
    &&& text == spec.0
    &&& match spec.1 {
        None => res is Ok,
        Some(msg) => res matches Err(e) && e.text() == msg,
    }
}

fn site_offset(relocation: &AotRelocationMetadata) -> (res: Result<usize, ObjectEmissionError>)
    ensures
        relocation.executable_offset < 0 || relocation.executable_offset > usize::MAX ==> (res matches Err(
            e,
        ) && e.text() == invalid_offset_text(relocation.executable_offset)),
        !(relocation.executable_offset < 0 || relocation.executable_offset > usize::MAX) ==> res
            == Ok::<usize, ObjectEmissionError>(relocation.executable_offset as usize),
{
    let v = relocation.executable_offset;
    if v < 0 || v as u64 > usize::MAX as u64 {
        Err(invalid_offset_error(v))
    } else {
        Ok(v as usize)
    }
}

/// Zeroes the 32-bit displacement of each x86-64 call site, in order; an
/// invalid or out-of-bounds site stops it with an error.
pub fn normalize_x86_64_relocation_sites(
    text_bytes: &mut [u8],
    relocations: &[AotRelocationMetadata],
) -> (res: Result<(), ObjectEmissionError>)
    ensures
        normalized_as(
            res,
            final(text_bytes)@,
            sites_from(AotTargetArchitecture::X86_64, old(text_bytes)@, relocations@, 0),
        ),
{
    let n = relocations.len();
    let mut i: usize = 0;
    while i < n
        invariant
            n == relocations@.len(),
            i <= n,
            text_bytes@.len() == old(text_bytes)@.len(),
            sites_from(AotTargetArchitecture::X86_64, old(text_bytes)@, relocations@, 0) == sites_from(
                AotTargetArchitecture::X86_64,
                text_bytes@,
                relocations@,
                i as nat,
            ),
        decreases n - i,
    {
        let relocation = &relocations[i];
        let offset = match site_offset(relocation) {
            Ok(o) => o,
            Err(e) => {
                return Err(e);
            },
        };
        let text_len = text_bytes.len();
        if offset > text_len || text_len - offset < 5 {
            return Err(out_of_bounds_error(offset, text_len));
        }
        let ghost before = text_bytes@;
        text_bytes[offset + 1] = 0;
        text_bytes[offset + 2] = 0;
        text_bytes[offset + 3] = 0;
        text_bytes[offset + 4] = 0;
        assert(text_bytes@ =~= before.take(offset + 1) + seq![0u8, 0u8, 0u8, 0u8] + before.skip(
            offset + 5,
        ));
        i = i + 1;
    }
    Ok(())
}

/// Writes the branch word of each aarch64 call site, in order; an invalid or
/// out-of-bounds site stops it with an error.
pub fn normalize_aarch64_relocation_sites(
    text_bytes: &mut [u8],
    relocations: &[AotRelocationMetadata],
) -> (res: Result<(), ObjectEmissionError>)
    ensures
        normalized_as(
            res,
            final(text_bytes)@,
            sites_from(AotTargetArchitecture::Aarch64, old(text_bytes)@, relocations@, 0),
        ),
{
    let n = relocations.len();
    let mut i: usize = 0;
    while i < n
        invariant
            n == relocations@.len(),
            i <= n,
            text_bytes@.len() == old(text_bytes)@.len(),
            sites_from(AotTargetArchitecture::Aarch64, old(text_bytes)@, relocations@, 0) == sites_from(
                AotTargetArchitecture::Aarch64,
                text_bytes@,
                relocations@,
                i as nat,
            ),
        decreases n - i,
    {
        let relocation = &relocations[i];
        let offset = match site_offset(relocation) {
            Ok(o) => o,
            Err(e) => {
                return Err(e);
            },
        };
        let text_len = text_bytes.len();
        let word: u32 = if relocation.is_tail_call {
            0x1400_0000u32
        } else {
            0x9400_0000u32
        };
        if offset > text_len || text_len - offset < 4 {
            return Err(out_of_bounds_error(offset, text_len));
        }
        let ghost before = text_bytes@;
        text_bytes[offset] = (word & 0xff) as u8;
        text_bytes[offset + 1] = ((word >> 8) & 0xff) as u8;
        text_bytes[offset + 2] = ((word >> 16) & 0xff) as u8;
        text_bytes[offset + 3] = ((word >> 24) & 0xff) as u8;
        assert(le_u32(word) =~= seq![(word & 0xff) as u8, ((word >> 8) & 0xff) as u8, ((word >> 16) & 0xff) as u8, ((word >> 24) & 0xff) as u8]);
        assert(text_bytes@ =~= before.take(offset as int) + le_u32(word) + before.skip(offset + 4));
        i = i + 1;
    }
    Ok(())
}

pub open spec fn unsupported_architecture_text(a: AotTargetArchitecture) -> Seq<char> {
    "unsupported relocation architecture "@ + architecture_name(a)
}

/// Normalizes the call sites for the target architecture; an architecture
/// other than x86-64 and aarch64 is refused with the text unchanged.
pub fn normalize_relocation_sites(
    architecture: AotTargetArchitecture,
    text_bytes: &mut [u8],
    relocations: &[AotRelocationMetadata],
) -> (res: Result<(), ObjectEmissionError>)
    ensures
        architecture == AotTargetArchitecture::Unknown ==> final(text_bytes)@ == old(text_bytes)@,
        architecture == AotTargetArchitecture::Unknown ==> (res matches Err(e) && e.text()
            == unsupported_architecture_text(architecture)),
        architecture != AotTargetArchitecture::Unknown ==> normalized_as(
            res,
            final(text_bytes)@,
            sites_from(architecture, old(text_bytes)@, relocations@, 0),
        ),
{
    match architecture {
        AotTargetArchitecture::X86_64 => normalize_x86_64_relocation_sites(text_bytes, relocations),
        AotTargetArchitecture::Aarch64 => normalize_aarch64_relocation_sites(text_bytes, relocations),
        AotTargetArchitecture::Unknown => {
            let mut s = String::new();
            push_str(&mut s, "unsupported relocation architecture ");
            push_str(&mut s, architecture_name_str(architecture));
            Err(ObjectEmissionError::new(s))
        },
    }
}

/// The lower-case hexadecimal digits of the bytes, two per byte.
pub open spec fn hex_bytes(b: Seq<u8>) -> Seq<char>
    decreases b.len(),
{
    if b.len() == 0 {
        seq![]
    } else {
        hex_bytes(b.drop_last()) + hex2(b.last())
    }
}

/// The name under which a module's local function is linked:
/// `razero_wasm_function_<module id in hex>_<wasm index>`.
pub open spec fn linked_symbol_text(module_id: Seq<u8>, index: u32) -> Seq<char> {
    "razero_wasm_function_"@ + hex_bytes(module_id) + "_"@ + decimal(index as nat)
}

proof fn lemma_hex_nul_free(b: Seq<u8>)
    ensures
        nul_free(hex_bytes(b)),
    decreases b.len(),
{
    if b.len() > 0 {
        lemma_hex_nul_free(b.drop_last());
    }
}

/// The symbol names of a module's functions have no NUL character.
pub proof fn lemma_symbol_names_nul_free(n: u32, module: Seq<char>, name: Seq<char>, module_id: Seq<u8>)
    ensures
        nul_free(import_symbol_text(n, module, name)),
        nul_free(local_symbol_text(n)),
        nul_free(linked_symbol_text(module_id, n)),
{
    reveal_strlit("razero_import_function_");
    reveal_strlit("_");
    reveal_strlit("razero_wasm_function_");
    lemma_decimal_nul_free(n as nat);
    lemma_sanitize_nul_free(module);
    lemma_sanitize_nul_free(name);
    lemma_hex_nul_free(module_id);
    assert(nul_free("razero_import_function_"@));
    assert(nul_free("_"@));
    assert(nul_free("razero_wasm_function_"@));
}

pub fn linked_wasm_function_symbol_name(module_id: &[u8; 32], wasm_function_index: u32) -> (res: String)
    ensures
        res@ == linked_symbol_text(module_id@, wasm_function_index),
{
    let mut s = String::new();
    push_str(&mut s, "razero_wasm_function_");
    let ghost start = s@;
    let mut i: usize = 0;
    while i < 32
        invariant
            module_id@.len() == 32,
            i <= 32,
            s@ == start + hex_bytes(module_id@.take(i as int)),
        decreases 32 - i,
    {
        push_hex2(&mut s, module_id[i]);
        assert(module_id@.take(i + 1).drop_last() =~= module_id@.take(i as int));
        i = i + 1;
    }
    assert(module_id@.take(32) =~= module_id@);
    push_str(&mut s, "_");
    push_decimal(&mut s, wasm_function_index as u64);
    assert(s@ =~= linked_symbol_text(module_id@, wasm_function_index));
    s
}

/// The module-local name of a function: `razero_wasm_function_<wasm index>`.
pub open spec fn local_symbol_text(index: u32) -> Seq<char> {
    "razero_wasm_function_"@ + decimal(index as nat)
}

pub fn local_wasm_function_symbol_name(wasm_function_index: u32) -> (res: String)
    ensures
        res@ == local_symbol_text(wasm_function_index),
{
    let mut s = String::new();
    push_str(&mut s, "razero_wasm_function_");
    push_decimal(&mut s, wasm_function_index as u64);
    s
}

/// `value` with every character but ASCII letters, digits and `_` replaced
/// by `_`.
pub fn sanitize_symbol_component(value: &str) -> (res: String)
    ensures
        res@ == sanitize_chars(value@),
{
    let mut s = String::new();
    push_sanitized(&mut s, value);
    assert(s@ =~= sanitize_chars(value@));
    s
}

/// The name of an imported function's symbol:
/// `razero_import_function_<n>_<module>_<name>`, with module and name sanitized.
pub open spec fn import_symbol_text(n: u32, module: Seq<char>, name: Seq<char>) -> Seq<char> {
    "razero_import_function_"@ + decimal(n as nat) + "_"@ + sanitize_chars(module) + "_"@
        + sanitize_chars(name)
}

pub fn import_function_symbol_name(function_import_index: u32, module: &str, name: &str) -> (res:
    String)
    ensures
        res@ == import_symbol_text(function_import_index, module@, name@),
{
    let mut s = String::new();
    push_str(&mut s, "razero_import_function_");
    push_decimal(&mut s, function_import_index as u64);
    push_str(&mut s, "_");
    push_sanitized(&mut s, module);
    push_str(&mut s, "_");
    push_sanitized(&mut s, name);
    assert(s@ =~= import_symbol_text(function_import_index, module@, name@));
    s
}

/// Pads the bytes with zeros to a multiple of 16.
pub fn align16_vec(bytes: &mut Vec<u8>)
    ensures
        final(bytes)@.len() % 16 == 0,
        old(bytes)@.len() <= final(bytes)@.len() < old(bytes)@.len() + 16,
        final(bytes)@.take(old(bytes)@.len() as int) == old(bytes)@,
        forall|i: int| old(bytes)@.len() <= i < final(bytes)@.len() ==> final(bytes)@[i] == 0u8,
{
    let ghost start = bytes@;
    let rem = bytes.len() % 16;
    if rem != 0 {
        let padding = 16 - rem;
        let mut k: usize = 0;
        while k < padding
            invariant
                padding == 16 - start.len() % 16,
                start.len() % 16 != 0,
                k <= padding,
                bytes@.len() == start.len() + k,
                bytes@.take(start.len() as int) == start,
                forall|i: int| start.len() <= i < bytes@.len() ==> bytes@[i] == 0u8,
            decreases padding - k,
        {
            bytes.push(0u8);
            assert(bytes@.take(start.len() as int) =~= start);
            k = k + 1;
        }
    } else {
        assert(bytes@.take(start.len() as int) =~= start);
    }
}

} // verus!
