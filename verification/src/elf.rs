//! Relocatable ELF objects of compiled modules, written with the `object`
//! crate: the text with its call sites normalized, a symbol for every
//! imported and local function, and a relocation for every call site.

use vstd::prelude::*;
use object::write::{Object, SectionId, SymbolId};
use crate::aot::{
    AotCompiledMetadata, AotImportDescMetadata, AotImportMetadata, AotRelocationMetadata,
    AotTargetArchitecture, AotTargetOperatingSystem,
};
use crate::relocation::{
    ObjectEmissionError, RelocatableObjectArtifact, normalize_relocation_sites, sites_from,
    import_function_symbol_name, import_symbol_text, local_wasm_function_symbol_name,
    local_symbol_text, linked_wasm_function_symbol_name, linked_symbol_text,
    x86_64_relocation_offset, aarch64_relocation_offset, invalid_offset_text, architecture_name,
    architecture_name_str, lemma_symbol_names_nul_free, x86_64_site, aarch64_site,
};
use crate::text::{push_str, push_decimal, string_bytes, string_of, decimal, nul_free_bytes, nul_free, lemma_encode_nul_free};
use crate::linker::os_debug_name_str;
use vstd::utf8::encode_utf8;

verus! {

#[verifier::external_type_specification]
#[verifier::external_body]
pub struct ExElfObject<'a>(Object<'a>);

#[verifier::external_type_specification]
#[verifier::external_body]
pub struct ExSymbolId(SymbolId);

#[verifier::external_type_specification]
#[verifier::external_body]
pub struct ExSectionId(SectionId);

/// One step of building an object, as the builder records it.
pub ghost enum ElfOp {
    /// An empty little-endian ELF object for the architecture.
    Created { architecture: AotTargetArchitecture },
    /// A file symbol.
    FileSymbol { name: Seq<u8> },
    /// The standard text section.
    TextSection { section: SectionId },
    /// The data of a section, and its alignment.
    SectionData { section: SectionId, data: Seq<u8>, align: u64 },
    /// A text symbol: defined in `section` at `value` with `size`, or
    /// undefined when `section` is `None`; visible to the linker or local to
    /// the object.
    Symbol { id: SymbolId, name: Seq<u8>, value: u64, size: u64, section: Option<SectionId>, linkage: bool },
    /// A PC-relative call relocation of the text at `offset` against `symbol`:
    /// an x86-64 32-bit branch with addend -4, or an aarch64 26-bit call.
    CallRelocation { section: SectionId, offset: u64, symbol: SymbolId, x86_branch: bool },
}

/// An ELF object being built, and the steps taken on it so far. Only the
/// functions below change it, each after checking that what it hands to
/// `object` belongs to this object.
pub struct ElfBuilder {
    object: Object<'static>,
    ops: Ghost<Seq<ElfOp>>,
}

/// The steps taken so far on an object.
pub closed spec fn elf_ops(o: ElfBuilder) -> Seq<ElfOp> {
    o.ops@
}

/// The bytes that `object` writes for an object built by the given steps.
pub uninterp spec fn elf_image(ops: Seq<ElfOp>) -> Seq<u8>;

/// Whether `section` is the text section recorded in `ops`.
pub open spec fn is_text_section(ops: Seq<ElfOp>, section: SectionId) -> bool {
    exists|i: int| 0 <= i < ops.len() && #[trigger] ops[i] == (ElfOp::TextSection { section })
}

/// Whether `ops` recorded the text section already.
pub open spec fn has_text_section(ops: Seq<ElfOp>) -> bool {
    exists|i: int| 0 <= i < ops.len() && (#[trigger] ops[i] is TextSection)
}

/// Whether `symbol` was recorded in `ops`.
pub open spec fn is_symbol(ops: Seq<ElfOp>, symbol: SymbolId) -> bool {
    exists|i: int| 0 <= i < ops.len() && ((#[trigger] ops[i]) matches ElfOp::Symbol { id, .. } && id == symbol)
}

/// `object::write::Object::new` for a little-endian ELF object; the steps
/// on the new object are recorded by `ElfBuilder`.
#[verifier::external_body]
fn raw_object_new(architecture: AotTargetArchitecture) -> (res: Object<'static>)
    requires
        architecture != AotTargetArchitecture::Unknown,
{
    let arch = match architecture {
        AotTargetArchitecture::X86_64 => object::Architecture::X86_64,
        AotTargetArchitecture::Aarch64 => object::Architecture::Aarch64,
        AotTargetArchitecture::Unknown => object::Architecture::Unknown,
    };
    Object::new(object::BinaryFormat::Elf, arch, object::Endianness::Little)
}

/// An empty little-endian ELF object of an x86-64 or aarch64 target.
pub(crate) fn elf_object_new(architecture: AotTargetArchitecture) -> (res: ElfBuilder)
    requires
        architecture != AotTargetArchitecture::Unknown,
    ensures
        elf_ops(res) == seq![ElfOp::Created { architecture }],
{
    let object = raw_object_new(architecture);
    let ops: Ghost<Seq<ElfOp>> = Ghost(Seq::empty().push(ElfOp::Created { architecture }));
    ElfBuilder { object, ops }
}

/// `Object::add_file_symbol`: records a file symbol. Its name goes into the
/// string table, so it must have no NUL byte.
#[verifier::external_body]
pub(crate) fn elf_add_file_symbol(o: &mut ElfBuilder, name: Vec<u8>)
    requires
        nul_free_bytes(name@),
    ensures
        elf_ops(*final(o)) == elf_ops(*old(o)).push(ElfOp::FileSymbol { name: name@ }),
{
    o.object.add_file_symbol(name);
}

/// `Object::section_id(StandardSection::Text)` on an object without a text
/// section: the new text section, recorded.
#[verifier::external_body]
pub(crate) fn elf_text_section(o: &mut ElfBuilder) -> (res: SectionId)
    requires
        !has_text_section(elf_ops(*old(o))),
    ensures
        elf_ops(*final(o)) == elf_ops(*old(o)).push(ElfOp::TextSection { section: res }),
{
    o.object.section_id(object::write::StandardSection::Text)
}

/// Whether the steps already gave `section` its data.
pub open spec fn has_section_data(ops: Seq<ElfOp>, section: SectionId) -> bool {
    exists|i: int| 0 <= i < ops.len() && ((#[trigger] ops[i]) matches ElfOp::SectionData { section: s, .. } && s == section)
}

/// `Object::set_section_data` of this object's text section, which has no
/// data yet, with a power-of-two alignment.
#[verifier::external_body]
pub(crate) fn elf_set_section_data(o: &mut ElfBuilder, section: SectionId, data: Vec<u8>, align: u64)
    requires
        align == 16,
        is_text_section(elf_ops(*old(o)), section),
        !has_section_data(elf_ops(*old(o)), section),
    ensures
        elf_ops(*final(o)) == elf_ops(*old(o)).push(ElfOp::SectionData { section, data: data@, align }),
{
    o.object.set_section_data(section, data, align);
}

/// `Object::add_symbol` of an undefined text symbol with linkage scope.
#[verifier::external_body]
pub(crate) fn elf_add_undefined_symbol(o: &mut ElfBuilder, name: Vec<u8>) -> (res: SymbolId)
    requires
        nul_free_bytes(name@),
    ensures
        elf_ops(*final(o)) == elf_ops(*old(o)).push(
            ElfOp::Symbol { id: res, name: name@, value: 0, size: 0, section: None, linkage: true },
        ),
{
    o.object.add_symbol(object::write::Symbol {
        name,
        value: 0,
        size: 0,
        kind: object::SymbolKind::Text,
        scope: object::SymbolScope::Linkage,
        weak: false,
        section: object::write::SymbolSection::Undefined,
        flags: object::SymbolFlags::None,
    })
}

/// `Object::add_symbol` of a text symbol defined in this object's text
/// section, local to the object.
#[verifier::external_body]
pub(crate) fn elf_add_local_symbol(o: &mut ElfBuilder, name: Vec<u8>, section: SectionId, value: u64, size: u64) -> (res: SymbolId)
    requires
        nul_free_bytes(name@),
        is_text_section(elf_ops(*old(o)), section),
    ensures
        elf_ops(*final(o)) == elf_ops(*old(o)).push(
            ElfOp::Symbol { id: res, name: name@, value, size, section: Some(section), linkage: false },
        ),
{
    o.object.add_symbol(object::write::Symbol {
        name,
        value,
        size,
        kind: object::SymbolKind::Text,
        scope: object::SymbolScope::Compilation,
        weak: false,
        section: object::write::SymbolSection::Section(section),
        flags: object::SymbolFlags::None,
    })
}

/// `Object::add_symbol` of a text symbol defined in this object's text
/// section, visible to the linker.
#[verifier::external_body]
pub(crate) fn elf_add_linkage_symbol(o: &mut ElfBuilder, name: Vec<u8>, section: SectionId, value: u64, size: u64) -> (res: SymbolId)
    requires
        nul_free_bytes(name@),
        is_text_section(elf_ops(*old(o)), section),
    ensures
        elf_ops(*final(o)) == elf_ops(*old(o)).push(
            ElfOp::Symbol { id: res, name: name@, value, size, section: Some(section), linkage: true },
        ),
{
    o.object.add_symbol(object::write::Symbol {
        name,
        value,
        size,
        kind: object::SymbolKind::Text,
        scope: object::SymbolScope::Linkage,
        weak: false,
        section: object::write::SymbolSection::Section(section),
        flags: object::SymbolFlags::None,
    })
}

/// `Object::add_relocation` of an x86-64 PC-relative 32-bit branch with
/// addend -4, in this object's text section against one of its symbols.
/// `object` translates it to `R_X86_64_PLT32` for an x86-64 object, so the
/// call succeeds there and the relocation is recorded; for another
/// architecture it refuses it, with its message.
#[verifier::external_body]
pub(crate) fn elf_add_x86_64_call_relocation(o: &mut ElfBuilder, section: SectionId, offset: u64, symbol: SymbolId) -> (res: Result<(), String>)
    requires
        is_text_section(elf_ops(*old(o)), section),
        is_symbol(elf_ops(*old(o)), symbol),
    ensures
        res is Ok ==> elf_ops(*final(o)) == elf_ops(*old(o)).push(
            ElfOp::CallRelocation { section, offset, symbol, x86_branch: true },
        ),
        res is Err ==> elf_ops(*final(o)) == elf_ops(*old(o)),
        elf_ops(*old(o)).len() > 0 && elf_ops(*old(o))[0] == (ElfOp::Created {
            architecture: AotTargetArchitecture::X86_64,
        }) ==> res is Ok,
{
    o.object.add_relocation(section, object::write::Relocation {
        offset,
        symbol,
        addend: -4,
        flags: object::RelocationFlags::Generic {
            kind: object::RelocationKind::Relative,
            encoding: object::RelocationEncoding::X86Branch,
            size: 32,
        },
    }).map_err(|err| err.to_string())
}

/// `Object::add_relocation` of an aarch64 26-bit call with addend 0, in this
/// object's text section against one of its symbols. `object` translates it
/// to `R_AARCH64_CALL26` for an aarch64 object, so the call succeeds there
/// and the relocation is recorded; for another architecture it refuses it,
/// with its message.
#[verifier::external_body]
pub(crate) fn elf_add_aarch64_call_relocation(o: &mut ElfBuilder, section: SectionId, offset: u64, symbol: SymbolId) -> (res: Result<(), String>)
    requires
        is_text_section(elf_ops(*old(o)), section),
        is_symbol(elf_ops(*old(o)), symbol),
    ensures
        res is Ok ==> elf_ops(*final(o)) == elf_ops(*old(o)).push(
            ElfOp::CallRelocation { section, offset, symbol, x86_branch: false },
        ),
        res is Err ==> elf_ops(*final(o)) == elf_ops(*old(o)),
        elf_ops(*old(o)).len() > 0 && elf_ops(*old(o))[0] == (ElfOp::Created {
            architecture: AotTargetArchitecture::Aarch64,
        }) ==> res is Ok,
{
    o.object.add_relocation(section, object::write::Relocation {
        offset,
        symbol,
        addend: 0,
        flags: object::RelocationFlags::Generic {
            kind: object::RelocationKind::Relative,
            encoding: object::RelocationEncoding::AArch64Call,
            size: 26,
        },
    }).map_err(|err| err.to_string())
}

/// `Object::write`: the bytes of the object built by the recorded steps.
/// Writing an ELF object into a `Vec` fails only for an architecture,
/// COMDAT, section kind, symbol kind or relocation that `object` does not
/// implement, and panics only on a name with a NUL byte or an id of another
/// object. An object built by the steps above is an x86-64 or aarch64
/// object with one text section, text and file symbols of NUL-free names,
/// and relocations that `add_relocation` translated, all with ids of this
/// object; so it is always written.
#[verifier::external_body]
pub(crate) fn elf_write(o: &ElfBuilder) -> (res: Result<Vec<u8>, String>)
    ensures
        res is Ok,
        res matches Ok(bytes) ==> bytes@ == elf_image(elf_ops(*o)),
{
    o.object.write().map_err(|err| err.to_string())
}

/// The symbols of the imported functions: the `n`-th function import gets
/// index `n` and its import symbol name, until `count` of them are named.
pub open spec fn import_symbol_entries(imports: Seq<AotImportMetadata>, count: u32, i: nat, n: u32) -> Seq<
    (u32, Seq<char>),
>
    decreases imports.len() - i,
{
    if i >= imports.len() {
        seq![]
    } else if !(imports[i as int].desc is Func) {
        import_symbol_entries(imports, count, i + 1, n)
    } else if n >= count {
        seq![]
    } else {
        seq![(n, import_symbol_text(n, imports[i as int].module@, imports[i as int].name@))]
            + import_symbol_entries(imports, count, i + 1, (n + 1) as u32)
    }
}

pub open spec fn symbol_id(op: ElfOp) -> SymbolId {
    match op {
        ElfOp::Symbol { id, .. } => id,
        _ => arbitrary(),
    }
}

/// The symbol that a call to function `t` refers to: the last one recorded
/// for it.
pub open spec fn last_symbol_for(map: Seq<(u32, SymbolId)>, t: u32) -> Option<SymbolId>
    decreases map.len(),
{
    if map.len() == 0 {
        None
    } else if map.last().0 == t {
        Some(map.last().1)
    } else {
        last_symbol_for(map.drop_last(), t)
    }
}

/// The offset of a relocation in the object: the displacement on x86-64,
/// the branch on aarch64.
pub open spec fn relocation_site(arch: AotTargetArchitecture, r: AotRelocationMetadata) -> u64 {
    if arch == AotTargetArchitecture::X86_64 {
        (r.executable_offset + 1) as u64
    } else {
        r.executable_offset as u64
    }
}

/// The first four steps: the object, the file symbol `razero-module`, the
/// text section, and the text as its data aligned to 16.
pub open spec fn object_header_ok(ops: Seq<ElfOp>, arch: AotTargetArchitecture, text: Seq<u8>) -> bool {
    &&& ops.len() >= 4
    &&& ops[0] == ElfOp::Created { architecture: arch }
    &&& ops[1] == ElfOp::FileSymbol { name: encode_utf8("razero-module"@) }
    &&& ops[2] matches ElfOp::TextSection { section }
    &&& ops[3] == ElfOp::SectionData { section: ops[2]->TextSection_section, data: text, align: 16 }
}

/// An undefined, linker-visible symbol for each imported function.
pub open spec fn import_ops_ok(ops: Seq<ElfOp>, imports: Seq<(u32, Seq<char>)>) -> bool {
    forall|k: int| 0 <= k < imports.len() ==> (#[trigger] ops[4 + k]) == ElfOp::Symbol {
        id: symbol_id(ops[4 + k]),
        name: encode_utf8(imports[k].1),
        value: 0,
        size: 0,
        section: None,
        linkage: true,
    }
}

/// A local and a linked symbol for each local function, at its place in the
/// text section.
pub open spec fn function_ops_ok(
    ops: Seq<ElfOp>,
    ni: int,
    funcs: Seq<crate::aot::AotFunctionMetadata>,
    module_id: Seq<u8>,
    section: SectionId,
) -> bool {
    forall|f: int| 0 <= f < funcs.len() ==> (#[trigger] ops[4 + ni + 2 * f]) == ElfOp::Symbol {
        id: symbol_id(ops[4 + ni + 2 * f]),
        name: encode_utf8(local_symbol_text(funcs[f].wasm_function_index)),
        value: funcs[f].executable_offset as u64,
        size: funcs[f].executable_len as u64,
        section: Some(section),
        linkage: false,
    } && ops[4 + ni + 2 * f + 1] == ElfOp::Symbol {
        id: symbol_id(ops[4 + ni + 2 * f + 1]),
        name: encode_utf8(linked_symbol_text(module_id, funcs[f].wasm_function_index)),
        value: funcs[f].executable_offset as u64,
        size: funcs[f].executable_len as u64,
        section: Some(section),
        linkage: true,
    }
}

/// A call relocation for each call site, from position `at` on, against the
/// symbol of its target.
pub open spec fn relocation_ops_ok(
    ops: Seq<ElfOp>,
    at: int,
    relocs: Seq<AotRelocationMetadata>,
    arch: AotTargetArchitecture,
    map: Seq<(u32, SymbolId)>,
    section: SectionId,
) -> bool {
    forall|r: int| 0 <= r < relocs.len() ==> (#[trigger] ops[at + r]) == ElfOp::CallRelocation {
        section,
        offset: relocation_site(arch, relocs[r]),
        symbol: last_symbol_for(map, relocs[r].target_function_index)->0,
        x86_branch: arch == AotTargetArchitecture::X86_64,
    } && last_symbol_for(map, relocs[r].target_function_index) is Some
}

/// The symbol recorded for each function, imported ones first.
pub open spec fn object_symbol_map(
    ops: Seq<ElfOp>,
    imports: Seq<(u32, Seq<char>)>,
    funcs: Seq<crate::aot::AotFunctionMetadata>,
) -> Seq<(u32, SymbolId)> {
    Seq::new(imports.len(), |k: int| (imports[k].0, symbol_id(ops[4 + k]))) + Seq::new(
        funcs.len(),
        |f: int| (funcs[f].wasm_function_index, symbol_id(ops[4 + imports.len() + 2 * f])),
    )
}

/// Whether `ops` builds the object of a module: an ELF object for its
/// architecture with the file symbol `razero-module`, the normalized text in
/// the text section aligned to 16, an undefined symbol for each imported
/// function, a local and a linked symbol for each local function, and a call
/// relocation for each call site against the symbol of its target.
pub open spec fn builds_module_object(ops: Seq<ElfOp>, aot: AotCompiledMetadata, text: Seq<u8>) -> bool {
    let arch = aot.target.architecture;
    let imports = import_symbol_entries(aot.imports@, aot.module_shape.import_function_count, 0, 0);
    let ni = imports.len() as int;
    let nf = aot.functions@.len() as int;
    &&& ops.len() == 4 + ni + 2 * nf + aot.relocations@.len()
    &&& object_header_ok(ops, arch, text)
    &&& import_ops_ok(ops, imports)
    &&& function_ops_ok(ops, ni, aot.functions@, aot.module_id@, ops[2]->TextSection_section)
    &&& relocation_ops_ok(
        ops,
        4 + ni + 2 * nf,
        aot.relocations@,
        arch,
        object_symbol_map(ops, imports, aot.functions@),
        ops[2]->TextSection_section,
    )
}

/// The functions that symbols are recorded for: the imported ones, then the
/// local ones.
pub open spec fn symbol_keys(aot: AotCompiledMetadata) -> Seq<u32> {
    import_symbol_entries(aot.imports@, aot.module_shape.import_function_count, 0, 0).map_values(
        |e: (u32, Seq<char>)| e.0,
    ) + aot.functions@.map_values(|f: crate::aot::AotFunctionMetadata| f.wasm_function_index)
}

pub open spec fn linux_only_text(os: AotTargetOperatingSystem) -> Seq<char> {
    "relocatable object emission currently supports Linux only (got "@ + crate::linker::os_debug_name(os)
        + ")"@
}

pub open spec fn architecture_only_text(a: AotTargetArchitecture) -> Seq<char> {
    "relocatable object emission currently supports x86_64 and aarch64 only (got "@
        + architecture_name(a) + ")"@
}

pub open spec fn missing_target_text(t: u32) -> Seq<char> {
    "missing relocation target symbol for function index "@ + decimal(t as nat)
}

fn lookup_symbol(map: &Vec<(u32, SymbolId)>, t: u32) -> (res: Option<SymbolId>)
    ensures
        res == last_symbol_for(map@, t),
{
    let mut i: usize = map.len();
    assert(map@.take(map@.len() as int) =~= map@);
    while i > 0
        invariant
            i <= map@.len(),
            last_symbol_for(map@, t) == last_symbol_for(map@.take(i as int), t),
        decreases i,
    {
        assert(map@.take(i as int).drop_last() =~= map@.take(i - 1));
        if map[i - 1].0 == t {
            return Some(map[i - 1].1);
        }
        i = i - 1;
    }
    None
}

proof fn lemma_last_symbol_for_keys(map: Seq<(u32, SymbolId)>, t: u32)
    ensures
        last_symbol_for(map, t) is Some <==> exists|k: int| 0 <= k < map.len() && map[k].0 == t,
    decreases map.len(),
{
    if map.len() > 0 {
        lemma_last_symbol_for_keys(map.drop_last(), t);
        if map.last().0 != t {
            assert forall|k: int| 0 <= k < map.len() && map[k].0 == t implies 0 <= k < map.len() - 1
                && map.drop_last()[k].0 == t by {}
        }
    }
}

proof fn lemma_last_symbol_for_in_map(map: Seq<(u32, SymbolId)>, t: u32)
    ensures
        last_symbol_for(map, t) matches Some(id) ==> exists|k: int| 0 <= k < map.len() && map[k].1 == id,
    decreases map.len(),
{
    if map.len() > 0 && map.last().0 != t {
        lemma_last_symbol_for_in_map(map.drop_last(), t);
        if last_symbol_for(map, t) is Some {
            let id = last_symbol_for(map, t)->0;
            let k = choose|k: int| 0 <= k < map.drop_last().len() && map.drop_last()[k].1 == id;
            assert(map[k].1 == id);
        }
    }
}

/// Call sites that all normalize have no negative offset.
proof fn lemma_sites_offsets(
    arch: AotTargetArchitecture,
    text: Seq<u8>,
    relocations: Seq<AotRelocationMetadata>,
    i: nat,
)
    ensures
        sites_from(arch, text, relocations, i).1 is None ==> forall|q: int|
            i <= q < relocations.len() ==> (#[trigger] relocations[q]).executable_offset >= 0,
    decreases relocations.len() - i,
{
    if i < relocations.len() {
        let step = if arch == AotTargetArchitecture::X86_64 {
            x86_64_site(text, relocations[i as int])
        } else {
            aarch64_site(text, relocations[i as int])
        };
        if let Ok(t2) = step {
            lemma_sites_offsets(arch, t2, relocations, i + 1);
        }
    }
}

pub(crate) fn name_bytes(name: &String) -> (res: Vec<u8>)
    ensures
        res@ == encode_utf8(name@),
{
    vstd::slice::slice_to_vec(string_bytes(name))
}

/// Emits the relocatable ELF object of a compiled module from its text bytes
/// and AOT metadata, with its serialized metadata as the sidecar. Only Linux
/// targets on x86-64 and aarch64 are emitted; a bad call site, or a call to
/// a function that has no symbol, is an error.
pub fn emit_relocatable_object(
    text: &[u8],
    aot: &AotCompiledMetadata,
    metadata_sidecar_bytes: Vec<u8>,
) -> (res: Result<RelocatableObjectArtifact, ObjectEmissionError>)
    ensures
        aot.target.operating_system != AotTargetOperatingSystem::Linux ==> (res matches Err(e)
            && e.text() == linux_only_text(aot.target.operating_system)),
        aot.target.operating_system == AotTargetOperatingSystem::Linux && aot.target.architecture
            == AotTargetArchitecture::Unknown ==> (res matches Err(e) && e.text()
            == architecture_only_text(aot.target.architecture)),
        aot.target.operating_system == AotTargetOperatingSystem::Linux && aot.target.architecture
            != AotTargetArchitecture::Unknown && sites_from(aot.target.architecture, text@, aot.relocations@, 0).1 is Some
            ==> (res matches Err(e) && Some(e.text()) == sites_from(
            aot.target.architecture,
            text@,
            aot.relocations@,
            0,
        ).1),
        (exists|r: int| 0 <= r < aot.relocations@.len() && !symbol_keys(*aot).contains(
            #[trigger] aot.relocations@[r].target_function_index,
        )) ==> res is Err,
        aot.target.operating_system == AotTargetOperatingSystem::Linux && aot.target.architecture
            != AotTargetArchitecture::Unknown && sites_from(aot.target.architecture, text@, aot.relocations@, 0).1 is None
            && (forall|r: int| 0 <= r < aot.relocations@.len() ==> symbol_keys(*aot).contains(
            #[trigger] aot.relocations@[r].target_function_index,
        )) ==> res is Ok,
        res matches Ok(art) ==> {
            &&& aot.target.operating_system == AotTargetOperatingSystem::Linux
            &&& aot.target.architecture != AotTargetArchitecture::Unknown
            &&& sites_from(aot.target.architecture, text@, aot.relocations@, 0).1 is None
            &&& art.metadata_sidecar_bytes@ == metadata_sidecar_bytes@
            &&& exists|ops: Seq<ElfOp>| builds_module_object(
                ops,
                *aot,
                sites_from(aot.target.architecture, text@, aot.relocations@, 0).0,
            ) && art.object_bytes@ == elf_image(ops)
        },
{
    let arch = aot.target.architecture;
    if aot.target.operating_system != AotTargetOperatingSystem::Linux {
        let mut s = string_of("relocatable object emission currently supports Linux only (got ");
        push_str(&mut s, os_debug_name_str(aot.target.operating_system));
        push_str(&mut s, ")");
        return Err(ObjectEmissionError::new(s));
    }
    if arch == AotTargetArchitecture::Unknown {
        let mut s = string_of("relocatable object emission currently supports x86_64 and aarch64 only (got ");
        push_str(&mut s, architecture_name_str(arch));
        push_str(&mut s, ")");
        return Err(ObjectEmissionError::new(s));
    }
    let mut text_bytes = vstd::slice::slice_to_vec(text);
    let ghost normalized_input = text_bytes@;
    match normalize_relocation_sites(arch, text_bytes.as_mut_slice(), aot.relocations.as_slice()) {
        Ok(()) => {},
        Err(e) => {
            return Err(e);
        },
    }
    let ghost normalized = text_bytes@;
    let mut object = elf_object_new(arch);
    let file_name = string_of("razero-module");
    proof {
        reveal_strlit("razero-module");
        assert(nul_free(file_name@));
        lemma_encode_nul_free(file_name@);
    }
    elf_add_file_symbol(&mut object, name_bytes(&file_name));
    proof {
        assert forall|i: int| 0 <= i < elf_ops(object).len() implies !(#[trigger] elf_ops(object)[i] is TextSection) by {
            assert(i < 2);
        }
    }
    let text_section = elf_text_section(&mut object);
    assert(elf_ops(object)[2] == ElfOp::TextSection { section: text_section });
    proof {
        assert forall|i: int| 0 <= i < elf_ops(object).len() implies !((#[trigger] elf_ops(object)[i]) matches ElfOp::SectionData { section: s, .. } && s == text_section) by {
            assert(i < 3);
        }
    }
    elf_set_section_data(&mut object, text_section, text_bytes, 16);
    let ghost base = elf_ops(object);
    assert(base.len() == 4);
    assert(base[0] == ElfOp::Created { architecture: arch });
    assert(base[2] == ElfOp::TextSection { section: text_section });

    // imported functions
    let ghost all_imports = import_symbol_entries(aot.imports@, aot.module_shape.import_function_count, 0, 0);
    let ghost mut entries: Seq<(u32, Seq<char>)> = seq![];
    let mut map: Vec<(u32, SymbolId)> = Vec::new();
    let count = aot.module_shape.import_function_count;
    let ni_total = aot.imports.len();
    let mut next: u32 = 0;
    let mut i: usize = 0;
    let mut done = false;
    while i < ni_total && !done
        invariant
            ni_total == aot.imports@.len(),
            count == aot.module_shape.import_function_count,
            i <= ni_total,
            next <= count,
            all_imports == import_symbol_entries(aot.imports@, count, 0, 0),
            done ==> all_imports == entries,
            !done ==> all_imports == entries + import_symbol_entries(aot.imports@, count, i as nat, next),
            elf_ops(object).len() == 4 + entries.len(),
            elf_ops(object).take(4) == base,
            elf_ops(object)[0] == (ElfOp::Created { architecture: arch }),
            elf_ops(object)[2] == (ElfOp::TextSection { section: text_section }),
            map@.len() == entries.len(),
            forall|k: int| 0 <= k < entries.len() ==> (#[trigger] map@[k]).0 == entries[k].0,
            forall|k: int| 0 <= k < entries.len() ==> (#[trigger] elf_ops(object)[4 + k]) == (ElfOp::Symbol {
                id: map@[k].1,
                name: encode_utf8(entries[k].1),
                value: 0,
                size: 0,
                section: None,
                linkage: true,
            }),
        decreases ni_total - i,
    {
        let import = &aot.imports[i];
        let is_func = match &import.desc {
            AotImportDescMetadata::Func(_) => true,
            _ => false,
        };
        if is_func {
            if next >= count {
                done = true;
                assert(all_imports == entries + seq![]);
                assert(entries + seq![] =~= entries);
            } else {
                let name = import_function_symbol_name(next, import.module.as_str(), import.name.as_str());
                proof {
                    lemma_symbol_names_nul_free(next, import.module@, import.name@, aot.module_id@);
                    lemma_encode_nul_free(name@);
                }
                let ghost before = elf_ops(object);
                let id = elf_add_undefined_symbol(&mut object, name_bytes(&name));
                map.push((next, id));
                proof {
                    let e = (next, import_symbol_text(next, import.module@, import.name@));
                    assert(import_symbol_entries(aot.imports@, count, i as nat, next) == seq![e]
                        + import_symbol_entries(aot.imports@, count, (i + 1) as nat, (next + 1) as u32));
                    assert(entries + import_symbol_entries(aot.imports@, count, i as nat, next)
                        =~= entries.push(e) + import_symbol_entries(aot.imports@, count, (i + 1) as nat, (next + 1) as u32));
                    entries = entries.push(e);
                    assert(elf_ops(object).take(4) =~= before.take(4));
                }
                next = next + 1;
            }
        }
        i = i + 1;
    }
    proof {
        if !done {
            assert(import_symbol_entries(aot.imports@, count, i as nat, next) == Seq::<(u32, Seq<char>)>::empty());
            assert(entries + Seq::<(u32, Seq<char>)>::empty() =~= entries);
        }
    }
    let ghost ni = entries.len();
    assert(entries == all_imports);

    // local functions
    let nf = aot.functions.len();
    let mut f: usize = 0;
    while f < nf
        invariant
            nf == aot.functions@.len(),
            f <= nf,
            ni == all_imports.len(),
            elf_ops(object).len() == 4 + ni + 2 * f,
            elf_ops(object).take(4) == base,
            elf_ops(object)[0] == (ElfOp::Created { architecture: arch }),
            elf_ops(object)[2] == (ElfOp::TextSection { section: text_section }),
            map@.len() == ni + f,
            forall|k: int| 0 <= k < ni ==> (#[trigger] map@[k]).0 == all_imports[k].0,
            forall|k: int| 0 <= k < ni ==> (#[trigger] elf_ops(object)[4 + k]) == (ElfOp::Symbol {
                id: map@[k].1,
                name: encode_utf8(all_imports[k].1),
                value: 0,
                size: 0,
                section: None,
                linkage: true,
            }),
            forall|g: int| 0 <= g < f ==> (#[trigger] map@[ni + g]).0 == aot.functions@[g].wasm_function_index,
            forall|g: int| 0 <= g < f ==> (#[trigger] elf_ops(object)[4 + ni + 2 * g]) == (ElfOp::Symbol {
                id: map@[ni + g].1,
                name: encode_utf8(local_symbol_text(aot.functions@[g].wasm_function_index)),
                value: aot.functions@[g].executable_offset as u64,
                size: aot.functions@[g].executable_len as u64,
                section: Some(text_section),
                linkage: false,
            }) && elf_ops(object)[4 + ni + 2 * g + 1] == (ElfOp::Symbol {
                id: symbol_id(elf_ops(object)[4 + ni + 2 * g + 1]),
                name: encode_utf8(linked_symbol_text(aot.module_id@, aot.functions@[g].wasm_function_index)),
                value: aot.functions@[g].executable_offset as u64,
                size: aot.functions@[g].executable_len as u64,
                section: Some(text_section),
                linkage: true,
            }),
        decreases nf - f,
    {
        let function = &aot.functions[f];
        let ghost before = elf_ops(object);
        let local_name = local_wasm_function_symbol_name(function.wasm_function_index);
        let linked_name = linked_wasm_function_symbol_name(&aot.module_id, function.wasm_function_index);
        proof {
            lemma_symbol_names_nul_free(function.wasm_function_index, seq![], seq![], aot.module_id@);
            lemma_encode_nul_free(local_name@);
            lemma_encode_nul_free(linked_name@);
        }
        let id = elf_add_local_symbol(
            &mut object,
            name_bytes(&local_name),
            text_section,
            function.executable_offset as u64,
            function.executable_len as u64,
        );
        assert(elf_ops(object)[2] == (ElfOp::TextSection { section: text_section }));
        elf_add_linkage_symbol(
            &mut object,
            name_bytes(&linked_name),
            text_section,
            function.executable_offset as u64,
            function.executable_len as u64,
        );
        map.push((function.wasm_function_index, id));
        assert(elf_ops(object).take(4) =~= before.take(4));
        f = f + 1;
    }
    let ghost symbols_done = elf_ops(object);
    let ghost full_map = map@;
    proof {
        let keys = symbol_keys(*aot);
        assert(keys.len() == full_map.len());
        assert forall|k: int| 0 <= k < full_map.len() implies keys[k] == (#[trigger] full_map[k]).0 by {
            if k < ni {
                assert(full_map[k].0 == all_imports[k].0);
            } else {
                let g = k - ni;
                assert(full_map[ni + g].0 == aot.functions@[g].wasm_function_index);
            }
        }
        assert forall|k: int| 0 <= k < full_map.len() implies is_symbol(symbols_done, (#[trigger] full_map[k]).1) by {
            if k < ni {
                assert(symbols_done[4 + k] matches ElfOp::Symbol { id, .. } && id == full_map[k].1);
            } else {
                let g = k - ni;
                assert(symbols_done[4 + ni + 2 * g] matches ElfOp::Symbol { id, .. } && id == full_map[ni + g].1);
            }
        }
        lemma_sites_offsets(arch, normalized_input, aot.relocations@, 0);
    }

    // relocations
    let nr = aot.relocations.len();
    let mut r: usize = 0;
    while r < nr
        invariant
            nr == aot.relocations@.len(),
            aot.target.operating_system == AotTargetOperatingSystem::Linux,
            arch == aot.target.architecture,
            arch != AotTargetArchitecture::Unknown,
            sites_from(arch, text@, aot.relocations@, 0).1 is None,
            r <= nr,
            map@ == full_map,
            symbol_keys(*aot).len() == full_map.len(),
            forall|k: int| 0 <= k < full_map.len() ==> symbol_keys(*aot)[k] == (#[trigger] full_map[k]).0,
            forall|k: int| 0 <= k < full_map.len() ==> is_symbol(symbols_done, (#[trigger] full_map[k]).1),
            forall|q: int| 0 <= q < nr ==> (#[trigger] aot.relocations@[q]).executable_offset >= 0,
            symbols_done.len() >= 4,
            symbols_done[0] == (ElfOp::Created { architecture: arch }),
            symbols_done[2] == (ElfOp::TextSection { section: text_section }),
            elf_ops(object).len() == symbols_done.len() + r,
            elf_ops(object).take(symbols_done.len() as int) == symbols_done,
            forall|q: int| 0 <= q < r ==> (#[trigger] elf_ops(object)[symbols_done.len() + q]) == (ElfOp::CallRelocation {
                section: text_section,
                offset: relocation_site(arch, aot.relocations@[q]),
                symbol: last_symbol_for(full_map, aot.relocations@[q].target_function_index)->0,
                x86_branch: arch == AotTargetArchitecture::X86_64,
            }) && last_symbol_for(full_map, aot.relocations@[q].target_function_index) is Some,
        decreases nr - r,
    {
        let relocation = &aot.relocations[r];
        let ghost before = elf_ops(object);
        proof {
            lemma_last_symbol_for_keys(full_map, relocation.target_function_index);
        }
        let symbol = match lookup_symbol(&map, relocation.target_function_index) {
            Some(symbol) => symbol,
            None => {
                proof {
                    let keys = symbol_keys(*aot);
                    let t = relocation.target_function_index;
                    if keys.contains(t) {
                        let k = choose|k: int| 0 <= k < keys.len() && keys[k] == t;
                        assert(full_map[k].0 == t);
                    }
                }
                let mut s = string_of("missing relocation target symbol for function index ");
                push_decimal(&mut s, relocation.target_function_index as u64);
                return Err(ObjectEmissionError::new(s));
            },
        };
        proof {
            lemma_last_symbol_for_in_map(full_map, relocation.target_function_index);
            let k = choose|k: int| 0 <= k < full_map.len() && full_map[k].1 == symbol;
            assert(is_symbol(symbols_done, full_map[k].1));
            let w = choose|i: int| 0 <= i < symbols_done.len() && ((#[trigger] symbols_done[i]) matches ElfOp::Symbol { id, .. } && id == symbol);
            assert(elf_ops(object).take(symbols_done.len() as int)[w] == elf_ops(object)[w]);
            assert(elf_ops(object)[w] matches ElfOp::Symbol { id, .. } && id == symbol);
            assert(elf_ops(object).take(symbols_done.len() as int)[2] == elf_ops(object)[2]);
            assert(elf_ops(object)[2] == ElfOp::TextSection { section: text_section });
            assert(elf_ops(object).take(symbols_done.len() as int)[0] == elf_ops(object)[0]);
        }
        let added = if arch == AotTargetArchitecture::X86_64 {
            let offset = match x86_64_relocation_offset(relocation) {
                Ok(o) => o,
                Err(e) => {
                    return Err(e);
                },
            };
            elf_add_x86_64_call_relocation(&mut object, text_section, offset, symbol)
        } else {
            let offset = match aarch64_relocation_offset(relocation) {
                Ok(o) => o,
                Err(e) => {
                    return Err(e);
                },
            };
            elf_add_aarch64_call_relocation(&mut object, text_section, offset, symbol)
        };
        match added {
            Ok(()) => {},
            Err(message) => {
                return Err(ObjectEmissionError::new(message));
            },
        }
        proof {
            assert(elf_ops(object).take(symbols_done.len() as int) =~= before.take(symbols_done.len() as int));
        }
        r = r + 1;
    }
    let object_bytes = match elf_write(&object) {
        Ok(b) => b,
        Err(message) => {
            return Err(ObjectEmissionError::new(message));
        },
    };
    proof {
        let ops = elf_ops(object);
        let keys = symbol_keys(*aot);
        assert(keys.len() == full_map.len());
        assert forall|k: int| 0 <= k < full_map.len() implies keys[k] == (#[trigger] full_map[k]).0 by {
            if k < ni {
                assert(full_map[k].0 == all_imports[k].0);
            } else {
                let g = k - ni;
                assert(full_map[ni + g].0 == aot.functions@[g].wasm_function_index);
            }
        }
        assert forall|q: int| 0 <= q < nr implies keys.contains(
            #[trigger] aot.relocations@[q].target_function_index,
        ) by {
            let t = aot.relocations@[q].target_function_index;
            let _op = ops[symbols_done.len() + q];
            assert(last_symbol_for(full_map, t) is Some);
            lemma_last_symbol_for_keys(full_map, t);
            let k = choose|k: int| 0 <= k < full_map.len() && full_map[k].0 == t;
            assert(keys[k] == t);
        }
        let nf_ = aot.functions@.len();
        assert(all_imports == import_symbol_entries(aot.imports@, aot.module_shape.import_function_count, 0, 0));
        assert forall|k: int| 0 <= k < symbols_done.len() implies ops[k] == #[trigger] symbols_done[k] by {
            assert(ops.take(symbols_done.len() as int)[k] == ops[k]);
        }
        assert(ops.len() == 4 + ni + 2 * nf_ + nr);
        assert(symbols_done.take(4) == base);
        assert(symbols_done.take(4)[1] == symbols_done[1]);
        assert(symbols_done.take(4)[2] == symbols_done[2]);
        assert(symbols_done.take(4)[3] == symbols_done[3]);
        assert(ops[1] == base[1]);
        assert(ops[2] == base[2]);
        assert(ops[3] == base[3]);
        assert(ops[0] == base[0]);
        assert(ops[0] == ElfOp::Created { architecture: arch });
        assert(ops[1] == ElfOp::FileSymbol { name: encode_utf8("razero-module"@) });
        assert(ops[2] == ElfOp::TextSection { section: text_section });
        assert(ops[3] == ElfOp::SectionData { section: text_section, data: normalized, align: 16 });
        let map = object_symbol_map(ops, all_imports, aot.functions@);
        assert forall|k: int| 0 <= k < full_map.len() implies #[trigger] map[k] == full_map[k] by {
            if k < ni {
                assert(ops[4 + k] == symbols_done[4 + k]);
                assert(full_map[k].0 == all_imports[k].0);
            } else {
                let g = k - ni;
                assert(ops[4 + ni + 2 * g] == symbols_done[4 + ni + 2 * g]);
                assert(full_map[ni + g].0 == aot.functions@[g].wasm_function_index);
            }
        }
        assert(map =~= full_map);
        assert forall|k: int| 0 <= k < ni implies (#[trigger] ops[4 + k]) == (ElfOp::Symbol {
            id: symbol_id(ops[4 + k]),
            name: encode_utf8(all_imports[k].1),
            value: 0,
            size: 0,
            section: None,
            linkage: true,
        }) by {
            assert(ops[4 + k] == symbols_done[4 + k]);
        }
        assert forall|g: int| 0 <= g < nf_ implies (#[trigger] ops[4 + ni + 2 * g]) == (ElfOp::Symbol {
            id: symbol_id(ops[4 + ni + 2 * g]),
            name: encode_utf8(local_symbol_text(aot.functions@[g].wasm_function_index)),
            value: aot.functions@[g].executable_offset as u64,
            size: aot.functions@[g].executable_len as u64,
            section: Some(text_section),
            linkage: false,
        }) && ops[4 + ni + 2 * g + 1] == (ElfOp::Symbol {
            id: symbol_id(ops[4 + ni + 2 * g + 1]),
            name: encode_utf8(linked_symbol_text(aot.module_id@, aot.functions@[g].wasm_function_index)),
            value: aot.functions@[g].executable_offset as u64,
            size: aot.functions@[g].executable_len as u64,
            section: Some(text_section),
            linkage: true,
        }) by {
            assert(ops[4 + ni + 2 * g] == symbols_done[4 + ni + 2 * g]);
            assert(ops[4 + ni + 2 * g + 1] == symbols_done[4 + ni + 2 * g + 1]);
        }
        assert forall|q: int| 0 <= q < nr implies (#[trigger] ops[4 + ni + 2 * nf_ + q]) == (ElfOp::CallRelocation {
            section: text_section,
            offset: relocation_site(arch, aot.relocations@[q]),
            symbol: last_symbol_for(map, aot.relocations@[q].target_function_index)->0,
            x86_branch: arch == AotTargetArchitecture::X86_64,
        }) && last_symbol_for(map, aot.relocations@[q].target_function_index) is Some by {
            assert(4 + ni + 2 * nf_ + q == symbols_done.len() + q);
        }
        assert(ops[2]->TextSection_section == text_section);
        assert(ops.len() >= 4);
        assert(ops[1] == ElfOp::FileSymbol { name: encode_utf8("razero-module"@) });
        assert(object_header_ok(ops, arch, normalized));
        assert(import_ops_ok(ops, all_imports));
        assert(function_ops_ok(ops, ni as int, aot.functions@, aot.module_id@, text_section));
        assert(relocation_ops_ok(ops, (4 + ni + 2 * nf_) as int, aot.relocations@, arch, map, text_section));
        assert(builds_module_object(ops, *aot, normalized));
    }
    Ok(RelocatableObjectArtifact { object_bytes, metadata_sidecar_bytes })
}

} // verus!
