//! The small ELF objects that native packaging links beside the modules:
//! the entry preambles of the C ABI wrappers, the preamble of a hello-host
//! guest's `run` function, and the trampolines of packaged host imports.
//! Each is one text section holding native code pieces, each piece at a
//! 16-byte aligned offset under a linker-visible symbol.

use vstd::prelude::*;
use object::write::{Object, SectionId, SymbolId};
use vstd::utf8::encode_utf8;
use crate::aot::{AotFunctionMetadata, AotFunctionTypeMetadata, AotTargetArchitecture};
use crate::c_source::ModuleSpec;
use crate::elf::{
    ElfBuilder, ElfOp, elf_ops, elf_image, has_text_section, symbol_id, elf_object_new, elf_add_file_symbol, elf_text_section,
    elf_set_section_data, elf_add_linkage_symbol, elf_write, name_bytes,
};
use crate::linker::{
    NativeLinkError, NativePackagingTarget, PackagedHostImportSpec, align_to_16, is_c_abi_function_type,
    function_type_supported, preamble_symbol_text, preamble_symbol_name, copy_bytes, lemma_preamble_symbol_nul_free,
};
use crate::module_engine::SharedFunctionAddresses;
use crate::text::{lemma_encode_nul_free, nul_free, string_of};

verus! {

/// The bytes padded with zeros to a multiple of 16.
pub open spec fn pad16(t: Seq<u8>) -> Seq<u8> {
    t + Seq::new(((16 - t.len() % 16) % 16) as nat, |i: int| 0u8)
}

/// The text of the first `k` pieces, each starting at a 16-byte aligned
/// offset, and each piece's symbol with its offset and size.
pub open spec fn layout(pieces: Seq<(Seq<char>, Seq<u8>)>, k: nat) -> (Seq<u8>, Seq<(Seq<char>, u64, u64)>)
    decreases k,
{
    if k == 0 || k > pieces.len() {
        (seq![], seq![])
    } else {
        let prev = layout(pieces, (k - 1) as nat);
        let start = pad16(prev.0);
        (
            start + pieces[k - 1].1,
            prev.1.push((pieces[k - 1].0, start.len() as u64, pieces[k - 1].1.len() as u64)),
        )
    }
}

/// Each piece's symbol starts at a 16-byte aligned offset of the laid-out
/// text, where the piece's bytes are, with the piece's size; nothing but
/// zeros stands between the end of one piece and the start of the next.
pub proof fn lemma_layout_places_pieces(pieces: Seq<(Seq<char>, Seq<u8>)>, k: nat, j: int)
    requires
        k <= pieces.len(),
        0 <= j < k,
        layout(pieces, k).0.len() <= u64::MAX,
    ensures
        ({
            let (text, symbols) = layout(pieces, k);
            &&& symbols.len() == k
            &&& symbols[j].0 == pieces[j].0
            &&& symbols[j].1 % 16 == 0
            &&& symbols[j].2 == pieces[j].1.len()
            &&& symbols[j].1 + symbols[j].2 <= text.len()
            &&& text.subrange(symbols[j].1 as int, symbols[j].1 + symbols[j].2) == pieces[j].1
        }),
    decreases k,
{
    let prev = layout(pieces, (k - 1) as nat);
    let start = pad16(prev.0);
    lemma_layout_len(pieces, (k - 1) as nat);
    assert(start.len() % 16 == 0);
    assert(prev.0.len() <= start.len() <= layout(pieces, k).0.len());
    if j < k - 1 {
        lemma_layout_places_pieces(pieces, (k - 1) as nat, j);
        let (text, symbols) = layout(pieces, k);
        let (ptext, psymbols) = prev;
        assert(symbols[j] == psymbols[j]);
        assert(text.subrange(symbols[j].1 as int, symbols[j].1 + symbols[j].2) =~= ptext.subrange(
            symbols[j].1 as int,
            symbols[j].1 + symbols[j].2,
        ));
    } else {
        let (text, symbols) = layout(pieces, k);
        assert(start.len() % 16 == 0);
        assert(text.subrange(start.len() as int, (start.len() + pieces[j].1.len()) as int) =~= pieces[j].1);
    }
}

proof fn lemma_layout_len(pieces: Seq<(Seq<char>, Seq<u8>)>, k: nat)
    requires
        k <= pieces.len(),
    ensures
        layout(pieces, k).1.len() == k,
    decreases k,
{
    if k > 0 {
        lemma_layout_len(pieces, (k - 1) as nat);
    }
}

/// Whether `ops` builds an object for `arch` with the file symbol, the text
/// in its text section aligned to 16, and a linker-visible text symbol for
/// each entry, defined at its offset with its size.
pub open spec fn builds_text_object(
    ops: Seq<ElfOp>,
    arch: AotTargetArchitecture,
    file_symbol: Seq<char>,
    text: Seq<u8>,
    symbols: Seq<(Seq<char>, u64, u64)>,
) -> bool {
    &&& ops.len() == 4 + symbols.len()
    &&& ops[0] == ElfOp::Created { architecture: arch }
    &&& ops[1] == ElfOp::FileSymbol { name: encode_utf8(file_symbol) }
    &&& ops[2] matches ElfOp::TextSection { section }
    &&& ops[3] == ElfOp::SectionData { section: ops[2]->TextSection_section, data: text, align: 16 }
    &&& forall|k: int|
        0 <= k < symbols.len() ==> (#[trigger] ops[4 + k]) == (ElfOp::Symbol {
            id: symbol_id(ops[4 + k]),
            name: encode_utf8(symbols[k].0),
            value: symbols[k].1,
            size: symbols[k].2,
            section: Some(ops[2]->TextSection_section),
            linkage: true,
        })
}

/// What an object build returns: the bytes that `object` writes for such an
/// object, which it always writes.
pub open spec fn text_object_result(
    res: Result<Vec<u8>, NativeLinkError>,
    arch: AotTargetArchitecture,
    file_symbol: Seq<char>,
    text: Seq<u8>,
    symbols: Seq<(Seq<char>, u64, u64)>,
) -> bool {
    res matches Ok(bytes) && exists|ops: Seq<ElfOp>|
        builds_text_object(ops, arch, file_symbol, text, symbols) && bytes@ == elf_image(ops)
}

proof fn lemma_aligned_is_pad16(old_text: Seq<u8>, new_text: Seq<u8>)
    requires
        new_text.len() % 16 == 0,
        old_text.len() <= new_text.len() < old_text.len() + 16,
        new_text.take(old_text.len() as int) == old_text,
        forall|i: int| old_text.len() <= i < new_text.len() ==> new_text[i] == 0u8,
    ensures
        new_text == pad16(old_text),
{
    let p = pad16(old_text);
    assert(p.len() == new_text.len());
    assert forall|i: int| 0 <= i < p.len() implies p[i] == new_text[i] by {
        if i < old_text.len() {
            assert(new_text.take(old_text.len() as int)[i] == new_text[i]);
        }
    }
    assert(p =~= new_text);
}

/// Lays the pieces out in one text: each piece at the next 16-byte aligned
/// offset, with its symbol, offset and size.
fn layout_pieces(pieces: &Vec<(String, Vec<u8>)>) -> (res: (Vec<u8>, Vec<(String, u64, u64)>))
    ensures
        ({
            let model = layout(pieces@.map_values(|p: (String, Vec<u8>)| (p.0@, p.1@)), pieces@.len());
            &&& res.0@ == model.0
            &&& res.1@.map_values(|t: (String, u64, u64)| (t.0@, t.1, t.2)) == model.1
        }),
{
    let ghost model_pieces = pieces@.map_values(|p: (String, Vec<u8>)| (p.0@, p.1@));
    let mut text: Vec<u8> = Vec::new();
    let mut symbols: Vec<(String, u64, u64)> = Vec::new();
    let count = pieces.len();
    let mut k: usize = 0;
    while k < count
        invariant
            count == pieces@.len(),
            k <= count,
            model_pieces == pieces@.map_values(|p: (String, Vec<u8>)| (p.0@, p.1@)),
            text@ == layout(model_pieces, k as nat).0,
            symbols@.map_values(|t: (String, u64, u64)| (t.0@, t.1, t.2)) == layout(model_pieces, k as nat).1,
        decreases count - k,
    {
        let ghost before = text@;
        align_to_16(&mut text);
        proof {
            lemma_aligned_is_pad16(before, text@);
        }
        let offset = text.len() as u64;
        let piece = &pieces[k];
        let mut bytes = copy_bytes(&piece.1);
        let size = bytes.len() as u64;
        text.append(&mut bytes);
        let ghost syms_before = symbols@;
        symbols.push((string_of(piece.0.as_str()), offset, size));
        assert(model_pieces[k as int] == (piece.0@, piece.1@));
        assert(symbols@.map_values(|t: (String, u64, u64)| (t.0@, t.1, t.2)) =~= syms_before.map_values(
            |t: (String, u64, u64)| (t.0@, t.1, t.2),
        ).push((piece.0@, offset, size)));
        assert(text@ =~= layout(model_pieces, (k + 1) as nat).0);
        k = k + 1;
    }
    (text, symbols)
}

/// The symbols of a layout carry the names of its pieces: without NUL
/// characters when the pieces' names are.
proof fn lemma_layout_names_nul_free(pieces: Seq<(Seq<char>, Seq<u8>)>, symbols: Seq<(String, u64, u64)>)
    requires
        layout(pieces, pieces.len()).0.len() <= u64::MAX,
        symbols.map_values(|t: (String, u64, u64)| (t.0@, t.1, t.2)) == layout(pieces, pieces.len()).1,
        forall|j: int| 0 <= j < pieces.len() ==> nul_free((#[trigger] pieces[j]).0),
    ensures
        forall|j: int| 0 <= j < symbols.len() ==> nul_free((#[trigger] symbols[j]).0@),
{
    lemma_layout_len(pieces, pieces.len());
    assert forall|j: int| 0 <= j < symbols.len() implies nul_free((#[trigger] symbols[j]).0@) by {
        lemma_layout_places_pieces(pieces, pieces.len(), j);
        assert(symbols.map_values(|t: (String, u64, u64)| (t.0@, t.1, t.2))[j].0 == symbols[j].0@);
        assert(nul_free(pieces[j].0));
    }
}

/// Writes an ELF object for `arch` with the file symbol, the text in its
/// text section aligned to 16, and a linker-visible text symbol for each
/// entry.
fn write_text_object(
    arch: AotTargetArchitecture,
    file_symbol: &str,
    text: Vec<u8>,
    symbols: &Vec<(String, u64, u64)>,
) -> (res: Result<Vec<u8>, NativeLinkError>)
    requires
        arch != AotTargetArchitecture::Unknown,
        nul_free(file_symbol@),
        forall|k: int| 0 <= k < symbols@.len() ==> nul_free((#[trigger] symbols@[k]).0@),
    ensures
        text_object_result(
            res,
            arch,
            file_symbol@,
            text@,
            symbols@.map_values(|t: (String, u64, u64)| (t.0@, t.1, t.2)),
        ),
{
    let ghost model = symbols@.map_values(|t: (String, u64, u64)| (t.0@, t.1, t.2));
    let ghost text_model = text@;
    let mut object = elf_object_new(arch);
    let file_name = string_of(file_symbol);
    proof {
        lemma_encode_nul_free(file_name@);
        assert(!has_text_section(elf_ops(object))) by {
            assert forall|i: int| 0 <= i < elf_ops(object).len() implies !(#[trigger] elf_ops(object)[i] is TextSection) by {
                assert(i == 0);
            }
        }
    }
    elf_add_file_symbol(&mut object, name_bytes(&file_name));
    proof {
        assert forall|i: int| 0 <= i < elf_ops(object).len() implies !(#[trigger] elf_ops(object)[i] is TextSection) by {
            assert(i < 2);
        }
    }
    let section = elf_text_section(&mut object);
    assert(elf_ops(object)[2] == ElfOp::TextSection { section });
    proof {
        let ops = elf_ops(object);
        assert forall|i: int| 0 <= i < ops.len() implies !((#[trigger] ops[i]) matches ElfOp::SectionData { .. }) by {
            assert(i < 3);
        }
    }
    elf_set_section_data(&mut object, section, text, 16);
    let ghost base = elf_ops(object);
    let count = symbols.len();
    let mut k: usize = 0;
    while k < count
        invariant
            count == symbols@.len(),
            forall|j: int| 0 <= j < symbols@.len() ==> nul_free((#[trigger] symbols@[j]).0@),
            model == symbols@.map_values(|t: (String, u64, u64)| (t.0@, t.1, t.2)),
            k <= count,
            elf_ops(object).len() == 4 + k,
            elf_ops(object).take(4) == base,
            base.len() == 4,
            base[0] == (ElfOp::Created { architecture: arch }),
            base[1] == (ElfOp::FileSymbol { name: encode_utf8(file_symbol@) }),
            base[2] == (ElfOp::TextSection { section }),
            base[3] == (ElfOp::SectionData { section, data: text_model, align: 16 }),
            forall|j: int|
                0 <= j < k ==> (#[trigger] elf_ops(object)[4 + j]) == (ElfOp::Symbol {
                    id: symbol_id(elf_ops(object)[4 + j]),
                    name: encode_utf8(model[j].0),
                    value: model[j].1,
                    size: model[j].2,
                    section: Some(section),
                    linkage: true,
                }),
        decreases count - k,
    {
        let entry = &symbols[k];
        let ghost before = elf_ops(object);
        proof {
            lemma_encode_nul_free(entry.0@);
            assert(before[2] == before.take(4)[2]);
            assert(before[2] == ElfOp::TextSection { section });
        }
        let _id = elf_add_linkage_symbol(&mut object, name_bytes(&entry.0), section, entry.1, entry.2);
        assert(model[k as int] == (entry.0@, entry.1, entry.2));
        assert forall|j: int| 0 <= j < k + 1 implies (#[trigger] elf_ops(object)[4 + j]) == (ElfOp::Symbol {
            id: symbol_id(elf_ops(object)[4 + j]),
            name: encode_utf8(model[j].0),
            value: model[j].1,
            size: model[j].2,
            section: Some(section),
            linkage: true,
        }) by {
            if j < k {
                assert(elf_ops(object)[4 + j] == before[4 + j]);
            }
        }
        assert(elf_ops(object).take(4) =~= base) by {
            assert forall|i: int| 0 <= i < 4 implies elf_ops(object)[i] == before[i] by {}
            assert(before.take(4) == base);
        }
        k = k + 1;
    }
    let ghost ops = elf_ops(object);
    proof {
        assert forall|i: int| 0 <= i < 4 implies ops[i] == base[i] by {
            assert(ops.take(4)[i] == ops[i]);
        }
        assert(builds_text_object(ops, arch, file_symbol@, text_model, model));
    }
    match elf_write(&object) {
        Ok(bytes) => Ok(bytes),
        Err(message) => Err(NativeLinkError::new(message)),
    }
}

// --- the C ABI entry preambles ------------------------------------------

/// The preamble pieces of the modules from the `k`-th type of module `i`
/// on: one for each C ABI compatible type, named after its module and type.
pub open spec fn preamble_pieces_from(
    specs: Seq<ModuleSpec>,
    preambles: Seq<Seq<Seq<u8>>>,
    i: nat,
    k: nat,
) -> Seq<(Seq<char>, Seq<u8>)>
    decreases specs.len() - i, specs[i as int].metadata.types@.len() - k,
{
    if i >= specs.len() {
        seq![]
    } else if k >= specs[i as int].metadata.types@.len() {
        preamble_pieces_from(specs, preambles, i + 1, 0)
    } else {
        let rest = preamble_pieces_from(specs, preambles, i, k + 1);
        if is_c_abi_function_type(specs[i as int].metadata.types@[k as int]) {
            seq![(preamble_symbol_text(specs[i as int].sanitized_name@, k as u32), preambles[i as int][k as int])] + rest
        } else {
            rest
        }
    }
}

proof fn lemma_preamble_pieces_step(specs: Seq<ModuleSpec>, pv: Seq<Seq<Seq<u8>>>, i: nat, k: nat)
    requires
        i < specs.len(),
        k < specs[i as int].metadata.types@.len(),
    ensures
        preamble_pieces_from(specs, pv, i, k) == if is_c_abi_function_type(specs[i as int].metadata.types@[k as int]) {
            seq![(preamble_symbol_text(specs[i as int].sanitized_name@, k as u32), pv[i as int][k as int])]
                + preamble_pieces_from(specs, pv, i, k + 1)
        } else {
            preamble_pieces_from(specs, pv, i, k + 1)
        },
{
}

/// The entry preamble of each module function type, as the compiler's
/// backend produced it for the type: `preambles[i][t]` for type `t` of
/// module `i`.
pub open spec fn preambles_shaped(specs: Seq<ModuleSpec>, preambles: Seq<Vec<Vec<u8>>>) -> bool {
    &&& preambles.len() == specs.len()
    &&& forall|i: int|
        0 <= i < specs.len() ==> (#[trigger] preambles[i])@.len() == specs[i].metadata.types@.len()
}

pub open spec fn preambles_view(preambles: Seq<Vec<Vec<u8>>>) -> Seq<Seq<Seq<u8>>> {
    preambles.map_values(|v: Vec<Vec<u8>>| v@.map_values(|b: Vec<u8>| b@))
}

/// The object of the C ABI entry preambles: for each module, for each of
/// its function types that the C ABI can carry, its preamble at the next
/// 16-byte aligned offset under `<module>_preamble_<type>`, in an object
/// with the file symbol `razero-cabi-preambles`.
pub fn build_preamble_object(
    module_specs: &[ModuleSpec],
    preambles: &Vec<Vec<Vec<u8>>>,
    target: NativePackagingTarget,
) -> (res: Result<Vec<u8>, NativeLinkError>)
    requires
        target.architecture != AotTargetArchitecture::Unknown,
        preambles_shaped(module_specs@, preambles@),
    ensures
        ({
            let placed = layout(
                preamble_pieces_from(module_specs@, preambles_view(preambles@), 0, 0),
                preamble_pieces_from(module_specs@, preambles_view(preambles@), 0, 0).len(),
            );
            text_object_result(res, target.architecture, "razero-cabi-preambles"@, placed.0, placed.1)
        }),
{
    let ghost all = preamble_pieces_from(module_specs@, preambles_view(preambles@), 0, 0);
    let mut pieces: Vec<(String, Vec<u8>)> = Vec::new();
    let nm = module_specs.len();
    let mut i: usize = 0;
    while i < nm
        invariant
            nm == module_specs@.len(),
            i <= nm,
            preambles_shaped(module_specs@, preambles@),
            all == preamble_pieces_from(module_specs@, preambles_view(preambles@), 0, 0),
            all == pieces@.map_values(|p: (String, Vec<u8>)| (p.0@, p.1@)) + preamble_pieces_from(
                module_specs@,
                preambles_view(preambles@),
                i as nat,
                0,
            ),
            forall|j: int| 0 <= j < pieces@.len() ==> nul_free((#[trigger] pieces@[j]).0@),
        decreases nm - i,
    {
        let spec = &module_specs[i];
        let types = &spec.metadata.types;
        let nt = types.len();
        let mut t: usize = 0;
        while t < nt
            invariant
                nm == module_specs@.len(),
                i < nm,
                nt == types@.len(),
                types == module_specs@[i as int].metadata.types,
                *spec == module_specs@[i as int],
                t <= nt,
                preambles_shaped(module_specs@, preambles@),
                all == pieces@.map_values(|p: (String, Vec<u8>)| (p.0@, p.1@)) + preamble_pieces_from(
                    module_specs@,
                    preambles_view(preambles@),
                    i as nat,
                    t as nat,
                ),
                forall|j: int| 0 <= j < pieces@.len() ==> nul_free((#[trigger] pieces@[j]).0@),
            decreases nt - t,
        {
            let ghost before = pieces@;
            let ghost from_here = preamble_pieces_from(module_specs@, preambles_view(preambles@), i as nat, t as nat);
            let ghost from_next = preamble_pieces_from(module_specs@, preambles_view(preambles@), i as nat, (t + 1) as nat);
            proof {
                lemma_preamble_pieces_step(module_specs@, preambles_view(preambles@), i as nat, t as nat);
            }
            if function_type_supported(&types[t]) {
                let name = preamble_symbol_name(spec.sanitized_name.as_str(), t as u32);
                proof {
                    lemma_preamble_symbol_nul_free(spec.sanitized_name@, t as u32);
                }
                assert(preambles@[i as int]@.len() == nt);
                let bytes = copy_bytes(&preambles[i][t]);
                pieces.push((name, bytes));
                assert(preambles_view(preambles@)[i as int][t as int] == preambles@[i as int]@[t as int]@);
                assert(pieces@.map_values(|p: (String, Vec<u8>)| (p.0@, p.1@)) =~= before.map_values(
                    |p: (String, Vec<u8>)| (p.0@, p.1@),
                ) + seq![(preamble_symbol_text(spec.sanitized_name@, t as u32), preambles_view(preambles@)[i as int][t as int])]);
                assert(is_c_abi_function_type(module_specs@[i as int].metadata.types@[t as int]));
                assert((t as nat) < module_specs@[i as int].metadata.types@.len());
                assert((i as nat) < module_specs@.len());
                assert(from_here == seq![(preamble_symbol_text(spec.sanitized_name@, t as u32), preambles_view(preambles@)[i as int][t as int])] + from_next);
                assert(all =~= pieces@.map_values(|p: (String, Vec<u8>)| (p.0@, p.1@)) + from_next);
            } else {
                assert(from_here == from_next);
            }
            t = t + 1;
        }
        i = i + 1;
    }
    assert(pieces@.map_values(|p: (String, Vec<u8>)| (p.0@, p.1@)) =~= all);
    let (text, symbols) = layout_pieces(&pieces);
    let text_len = text.len();
    proof {
        lemma_layout_names_nul_free(pieces@.map_values(|p: (String, Vec<u8>)| (p.0@, p.1@)), symbols@);
        reveal_strlit("razero-cabi-preambles");
        assert(nul_free("razero-cabi-preambles"@));
    }
    write_text_object(target.architecture, "razero-cabi-preambles", text, &symbols)
}

// --- the hello-host run preamble -----------------------------------------

/// The x86-64 frame setup `push rbp; mov rbp, rsp` that a void preamble may
/// begin with.
pub open spec fn starts_with_frame_setup(bytes: Seq<u8>) -> bool {
    bytes.len() >= 4 && bytes[0] == 0x55 && bytes[1] == 0x48 && bytes[2] == 0x89 && bytes[3] == 0xe5
}

/// The preamble as the hello-host link places it: on a target that trims
/// them, a `() -> ()` preamble loses its frame setup.
pub open spec fn trimmed_preamble(bytes: Seq<u8>, ty: AotFunctionTypeMetadata, target: NativePackagingTarget) -> Seq<u8> {
    if target.trim_void_preamble_prologue && ty.params@.len() == 0 && ty.results@.len() == 0
        && starts_with_frame_setup(bytes) {
        bytes.skip(4)
    } else {
        bytes
    }
}

/// The object of a hello-host guest's `run` preamble: the preamble, trimmed
/// as `trimmed_preamble` says, at offset 0 under `symbol_name`, in an object
/// with the file symbol `razero-hello-host-preamble`.
pub fn build_named_preamble_object(
    symbol_name: &str,
    ty: &AotFunctionTypeMetadata,
    preamble: Vec<u8>,
    target: NativePackagingTarget,
) -> (res: Result<Vec<u8>, NativeLinkError>)
    requires
        target.architecture != AotTargetArchitecture::Unknown,
        nul_free(symbol_name@),
    ensures
        ({
            let bytes = trimmed_preamble(preamble@, *ty, target);
            text_object_result(
                res,
                target.architecture,
                "razero-hello-host-preamble"@,
                bytes,
                seq![(symbol_name@, 0u64, bytes.len() as u64)],
            )
        }),
{
    let mut bytes = preamble;
    if target.trim_void_preamble_prologue && ty.params.len() == 0 && ty.results.len() == 0 && bytes.len() >= 4
        && bytes[0] == 0x55 && bytes[1] == 0x48 && bytes[2] == 0x89 && bytes[3] == 0xe5 {
        let ghost whole = bytes@;
        let mut trimmed: Vec<u8> = Vec::new();
        let n = bytes.len();
        let mut k: usize = 4;
        while k < n
            invariant
                n == bytes@.len(),
                bytes@ == whole,
                4 <= k <= n,
                trimmed@ == whole.subrange(4, k as int),
            decreases n - k,
        {
            trimmed.push(bytes[k]);
            assert(trimmed@ =~= whole.subrange(4, k + 1));
            k = k + 1;
        }
        assert(trimmed@ =~= whole.skip(4));
        bytes = trimmed;
    }
    let size = bytes.len() as u64;
    let mut symbols: Vec<(String, u64, u64)> = Vec::new();
    symbols.push((string_of(symbol_name), 0, size));
    assert(symbols@.map_values(|t: (String, u64, u64)| (t.0@, t.1, t.2)) =~= seq![(symbol_name@, 0u64, size)]);
    proof {
        reveal_strlit("razero-hello-host-preamble");
        assert(nul_free("razero-hello-host-preamble"@));
        assert(symbols@[0].0@ == symbol_name@);
    }
    write_text_object(target.architecture, "razero-hello-host-preamble", bytes, &symbols)
}

// --- the packaged host-import trampolines --------------------------------

pub open spec fn trampoline_pieces(imports: Seq<PackagedHostImportSpec>, trampolines: Seq<Vec<u8>>) -> Seq<(Seq<char>, Seq<u8>)> {
    Seq::new(imports.len(), |i: int| (imports[i].trampoline_symbol@, trampolines[i]@))
}

/// The object of the packaged host imports' trampolines: each import's
/// trampoline, as the compiler's backend produced it for the import's type
/// and function index, at the next 16-byte aligned offset under the
/// import's trampoline symbol, in an object with the file symbol
/// `razero-packaged-host-imports`.
pub fn build_host_import_object(
    host_imports: &[PackagedHostImportSpec],
    trampolines: &Vec<Vec<u8>>,
    target: NativePackagingTarget,
) -> (res: Result<Vec<u8>, NativeLinkError>)
    requires
        target.architecture != AotTargetArchitecture::Unknown,
        trampolines@.len() == host_imports@.len(),
        forall|i: int| 0 <= i < host_imports@.len() ==> nul_free((#[trigger] host_imports@[i]).trampoline_symbol@),
    ensures
        ({
            let placed = layout(trampoline_pieces(host_imports@, trampolines@), host_imports@.len());
            text_object_result(res, target.architecture, "razero-packaged-host-imports"@, placed.0, placed.1)
        }),
{
    let mut pieces: Vec<(String, Vec<u8>)> = Vec::new();
    let n = host_imports.len();
    let mut i: usize = 0;
    while i < n
        invariant
            n == host_imports@.len(),
            trampolines@.len() == n,
            i <= n,
            pieces@.len() == i,
            forall|j: int| 0 <= j < i ==> (#[trigger] pieces@[j]).0@ == host_imports@[j].trampoline_symbol@
                && pieces@[j].1@ == trampolines@[j]@,
        decreases n - i,
    {
        pieces.push((string_of(host_imports[i].trampoline_symbol.as_str()), copy_bytes(&trampolines[i])));
        i = i + 1;
    }
    assert(pieces@.map_values(|p: (String, Vec<u8>)| (p.0@, p.1@)) =~= trampoline_pieces(host_imports@, trampolines@));
    let (text, symbols) = layout_pieces(&pieces);
    let text_len = text.len();
    proof {
        let model = pieces@.map_values(|p: (String, Vec<u8>)| (p.0@, p.1@));
        assert forall|j: int| 0 <= j < model.len() implies nul_free((#[trigger] model[j]).0) by {
            assert(model[j].0 == host_imports@[j].trampoline_symbol@);
        }
        lemma_layout_names_nul_free(model, symbols@);
        reveal_strlit("razero-packaged-host-imports");
        assert(nul_free("razero-packaged-host-imports"@));
    }
    write_text_object(target.architecture, "razero-packaged-host-imports", text, &symbols)
}

// --- the entry preambles of a module's types -----------------------------

pub open spec fn unnamed_pieces(preambles: Seq<Vec<u8>>) -> Seq<(Seq<char>, Seq<u8>)> {
    Seq::new(preambles.len(), |i: int| (Seq::<char>::empty(), preambles[i]@))
}

/// The entry preambles of a module's types in one text, each at the next
/// 16-byte aligned offset, and the offset of each, in type order.
pub fn layout_entry_preambles(preambles: &Vec<Vec<u8>>) -> (res: (Vec<u8>, Vec<usize>))
    ensures
        ({
            let placed = layout(unnamed_pieces(preambles@), preambles@.len());
            &&& res.0@ == placed.0
            &&& res.1@.len() == preambles@.len()
            &&& forall|i: int| 0 <= i < preambles@.len() ==> (#[trigger] res.1@[i]) == placed.1[i].1
        }),
{
    let n = preambles.len();
    let mut pieces: Vec<(String, Vec<u8>)> = Vec::new();
    let mut i: usize = 0;
    while i < n
        invariant
            n == preambles@.len(),
            i <= n,
            pieces@.len() == i,
            forall|j: int| 0 <= j < i ==> (#[trigger] pieces@[j]).0@ == Seq::<char>::empty() && pieces@[j].1@
                == preambles@[j]@,
        decreases n - i,
    {
        pieces.push((String::new(), copy_bytes(&preambles[i])));
        i = i + 1;
    }
    let ghost model_pieces = pieces@.map_values(|p: (String, Vec<u8>)| (p.0@, p.1@));
    assert(model_pieces =~= unnamed_pieces(preambles@));
    let (text, symbols) = layout_pieces(&pieces);
    let ghost placed = layout(unnamed_pieces(preambles@), n as nat);
    assert(symbols@.map_values(|t: (String, u64, u64)| (t.0@, t.1, t.2)) == placed.1);
    proof {
        lemma_layout_len(unnamed_pieces(preambles@), n as nat);
    }
    let text_len = text.len();
    let mut offsets: Vec<usize> = Vec::new();
    let mut k: usize = 0;
    while k < n
        invariant
            n == preambles@.len(),
            symbols@.len() == n,
            text@ == placed.0,
            text_len == text@.len(),
            placed == layout(unnamed_pieces(preambles@), n as nat),
            symbols@.map_values(|t: (String, u64, u64)| (t.0@, t.1, t.2)) == placed.1,
            k <= n,
            offsets@.len() == k,
            forall|j: int| 0 <= j < k ==> (#[trigger] offsets@[j]) == placed.1[j].1,
        decreases n - k,
    {
        proof {
            lemma_layout_places_pieces(unnamed_pieces(preambles@), n as nat, k as int);
            assert(symbols@.map_values(|t: (String, u64, u64)| (t.0@, t.1, t.2))[k as int] == (
                symbols@[k as int].0@,
                symbols@[k as int].1,
                symbols@[k as int].2,
            ));
        }
        let offset = symbols[k].1;
        assert(offset == placed.1[k as int].1);
        assert(offset <= text_len);
        offsets.push(offset as usize);
        k = k + 1;
    }
    (text, offsets)
}

/// The machine code of the engine's shared functions, as the backend
/// compiled each.
pub struct SharedFunctionCode {
    pub memory_grow: Vec<u8>,
    pub table_grow: Vec<u8>,
    pub check_module_exit_code: Vec<u8>,
    pub ref_func: Vec<u8>,
    pub stack_grow: Vec<u8>,
    pub memory_wait32: Vec<u8>,
    pub memory_wait64: Vec<u8>,
    pub memory_notify: Vec<u8>,
}

/// Where each shared function starts in the shared text.
#[derive(Clone, Copy, Debug, PartialEq, Eq)]
pub struct SharedFunctionOffsets {
    pub memory_grow: usize,
    pub table_grow: usize,
    pub check_module_exit_code: usize,
    pub ref_func: usize,
    pub stack_grow: usize,
    pub memory_wait32: usize,
    pub memory_wait64: usize,
    pub memory_notify: usize,
}

impl SharedFunctionCode {
    /// The shared functions in the order they are laid out.
    pub open spec fn in_order(&self) -> Seq<Vec<u8>> {
        seq![
            self.memory_grow,
            self.table_grow,
            self.check_module_exit_code,
            self.ref_func,
            self.stack_grow,
            self.memory_wait32,
            self.memory_wait64,
            self.memory_notify,
        ]
    }
}

impl SharedFunctionOffsets {
    /// The offsets in the order the functions are laid out.
    pub open spec fn in_order(&self) -> Seq<usize> {
        seq![
            self.memory_grow,
            self.table_grow,
            self.check_module_exit_code,
            self.ref_func,
            self.stack_grow,
            self.memory_wait32,
            self.memory_wait64,
            self.memory_notify,
        ]
    }
}

/// Lays the shared functions out in one text, in a fixed order (memory
/// grow, table grow, module exit check, `ref.func`, stack grow, the two
/// waits, notify), each at the next 16-byte aligned offset.
pub fn layout_shared_functions(code: SharedFunctionCode) -> (res: (Vec<u8>, SharedFunctionOffsets))
    ensures
        ({
            let placed = layout(unnamed_pieces(code.in_order()), 8);
            &&& res.0@ == placed.0
            &&& forall|i: int| 0 <= i < 8 ==> #[trigger] res.1.in_order()[i] == placed.1[i].1
            &&& forall|i: int| 0 <= i < 8 ==> #[trigger] res.1.in_order()[i] % 16 == 0
        }),
{
    let ghost order = code.in_order();
    let mut pieces: Vec<Vec<u8>> = Vec::new();
    pieces.push(code.memory_grow);
    pieces.push(code.table_grow);
    pieces.push(code.check_module_exit_code);
    pieces.push(code.ref_func);
    pieces.push(code.stack_grow);
    pieces.push(code.memory_wait32);
    pieces.push(code.memory_wait64);
    pieces.push(code.memory_notify);
    assert(pieces@ =~= order);
    let (text, offsets) = layout_entry_preambles(&pieces);
    let ghost placed = layout(unnamed_pieces(order), 8);
    let text_len = text.len();
    assert(placed.0.len() == text_len);
    proof {
        lemma_layout_len(unnamed_pieces(order), 8);
        assert forall|i: int| 0 <= i < 8 implies #[trigger] placed.1[i].1 % 16 == 0 by {
            lemma_layout_places_pieces(unnamed_pieces(order), 8, i);
        }
    }
    let res = SharedFunctionOffsets {
        memory_grow: offsets[0],
        table_grow: offsets[1],
        check_module_exit_code: offsets[2],
        ref_func: offsets[3],
        stack_grow: offsets[4],
        memory_wait32: offsets[5],
        memory_wait64: offsets[6],
        memory_notify: offsets[7],
    };
    assert(res.in_order() =~= offsets@);
    (text, res)
}

/// The address of `offset` in a text of `len` bytes at `base`: none when
/// the offset is past the text's last byte.
pub open spec fn text_ptr_at(base: usize, len: usize, offset: usize) -> Option<usize> {
    if offset < len {
        Some((base + offset) as usize)
    } else {
        None
    }
}

/// Whether every shared function that has an address is 16-byte aligned.
pub open spec fn shared_addresses_aligned(a: SharedFunctionAddresses) -> bool {
    &&& a.memory_grow matches Some(p) ==> p % 16 == 0
    &&& a.table_grow matches Some(p) ==> p % 16 == 0
    &&& a.check_module_exit_code matches Some(p) ==> p % 16 == 0
    &&& a.ref_func matches Some(p) ==> p % 16 == 0
    &&& a.stack_grow matches Some(p) ==> p % 16 == 0
    &&& a.memory_wait32 matches Some(p) ==> p % 16 == 0
    &&& a.memory_wait64 matches Some(p) ==> p % 16 == 0
    &&& a.memory_notify matches Some(p) ==> p % 16 == 0
}

fn text_ptr(base: usize, len: usize, offset: usize) -> (res: Option<usize>)
    requires
        base + len <= usize::MAX,
    ensures
        res == text_ptr_at(base, len, offset),
{
    if offset < len {
        Some(base + offset)
    } else {
        None
    }
}

/// The addresses of the shared functions once their text is at `base`: each
/// function's offset added to it, none for a function past the text's end.
/// A text at a 16-byte aligned address has every function aligned.
pub fn shared_function_addresses(base: usize, len: usize, offsets: &SharedFunctionOffsets) -> (res:
    SharedFunctionAddresses)
    requires
        base + len <= usize::MAX,
    ensures
        res.memory_grow == text_ptr_at(base, len, offsets.memory_grow),
        res.table_grow == text_ptr_at(base, len, offsets.table_grow),
        res.check_module_exit_code == text_ptr_at(base, len, offsets.check_module_exit_code),
        res.ref_func == text_ptr_at(base, len, offsets.ref_func),
        res.stack_grow == text_ptr_at(base, len, offsets.stack_grow),
        res.memory_wait32 == text_ptr_at(base, len, offsets.memory_wait32),
        res.memory_wait64 == text_ptr_at(base, len, offsets.memory_wait64),
        res.memory_notify == text_ptr_at(base, len, offsets.memory_notify),
        base % 16 == 0 && (forall|i: int| 0 <= i < 8 ==> #[trigger] offsets.in_order()[i] % 16 == 0)
            ==> shared_addresses_aligned(res),
{
    let res = SharedFunctionAddresses {
        memory_grow: text_ptr(base, len, offsets.memory_grow),
        stack_grow: text_ptr(base, len, offsets.stack_grow),
        check_module_exit_code: text_ptr(base, len, offsets.check_module_exit_code),
        table_grow: text_ptr(base, len, offsets.table_grow),
        ref_func: text_ptr(base, len, offsets.ref_func),
        memory_wait32: text_ptr(base, len, offsets.memory_wait32),
        memory_wait64: text_ptr(base, len, offsets.memory_wait64),
        memory_notify: text_ptr(base, len, offsets.memory_notify),
    };
    proof {
        if base % 16 == 0 && (forall|i: int| 0 <= i < 8 ==> #[trigger] offsets.in_order()[i] % 16 == 0) {
            assert(offsets.in_order()[0] % 16 == 0);
            assert(offsets.in_order()[1] % 16 == 0);
            assert(offsets.in_order()[2] % 16 == 0);
            assert(offsets.in_order()[3] % 16 == 0);
            assert(offsets.in_order()[4] % 16 == 0);
            assert(offsets.in_order()[5] % 16 == 0);
            assert(offsets.in_order()[6] % 16 == 0);
            assert(offsets.in_order()[7] % 16 == 0);
        }
    }
    res
}

/// The type index of local function `i`: its entry in the function
/// section, 0 when the section has none for it.
pub open spec fn type_index_or_zero(type_indices: Seq<u32>, i: int) -> u32 {
    if 0 <= i < type_indices.len() {
        type_indices[i]
    } else {
        0
    }
}

/// Whether the wasm index of local function `local_index`, the imported
/// functions' count plus the local index taken as a `u32`, fits a `u32`.
pub open spec fn wasm_index_fits(import_function_count: u32, local_index: int) -> bool {
    import_function_count + (local_index as u32) <= u32::MAX
}

/// The local functions of a compiled module in one text: each function's
/// code at the next 16-byte aligned offset, in order; the offset of each;
/// and its AOT metadata, its wasm index following the imported functions and
/// its type index from `type_indices` (0 for a function past its end).
pub fn layout_module_functions(import_function_count: u32, codes: &Vec<Vec<u8>>, type_indices: &[u32]) -> (res: (
    Vec<u8>,
    Vec<usize>,
    Vec<AotFunctionMetadata>,
))
    requires
        forall|i: int| 0 <= i < codes@.len() ==> #[trigger] wasm_index_fits(import_function_count, i),
    ensures
        ({
            let placed = layout(unnamed_pieces(codes@), codes@.len());
            &&& res.0@ == placed.0
            &&& res.1@.len() == codes@.len()
            &&& res.2@.len() == codes@.len()
            &&& forall|i: int|
                0 <= i < codes@.len() ==> {
                    &&& #[trigger] res.1@[i] == placed.1[i].1
                    &&& res.1@[i] % 16 == 0
                    &&& res.1@[i] + codes@[i]@.len() <= res.0@.len()
                    &&& res.0@.subrange(res.1@[i] as int, res.1@[i] + codes@[i]@.len()) == codes@[i]@
                    &&& res.2@[i] == AotFunctionMetadata {
                        local_function_index: i as u32,
                        wasm_function_index: (import_function_count + (i as u32)) as u32,
                        type_index: type_index_or_zero(type_indices@, i),
                        executable_offset: res.1@[i],
                        executable_len: codes@[i]@.len() as usize,
                    }
                }
        }),
{
    let (text, offsets) = layout_entry_preambles(codes);
    let ghost placed = layout(unnamed_pieces(codes@), codes@.len());
    let text_len = text.len();
    assert(placed.0.len() == text_len);
    let n = codes.len();
    let mut functions: Vec<AotFunctionMetadata> = Vec::new();
    let mut i: usize = 0;
    while i < n
        invariant
            n == codes@.len(),
            forall|j: int| 0 <= j < codes@.len() ==> #[trigger] wasm_index_fits(import_function_count, j),
            offsets@.len() == n,
            functions@.len() == i,
            i <= n,
            forall|j: int|
                0 <= j < i ==> #[trigger] functions@[j] == (AotFunctionMetadata {
                    local_function_index: j as u32,
                    wasm_function_index: (import_function_count + (j as u32)) as u32,
                    type_index: type_index_or_zero(type_indices@, j),
                    executable_offset: offsets@[j],
                    executable_len: codes@[j]@.len() as usize,
                }),
        decreases n - i,
    {
        assert(wasm_index_fits(import_function_count, i as int));
        let type_index = if i < type_indices.len() {
            type_indices[i]
        } else {
            0
        };
        functions.push(
            AotFunctionMetadata {
                local_function_index: i as u32,
                wasm_function_index: import_function_count + i as u32,
                type_index,
                executable_offset: offsets[i],
                executable_len: codes[i].len(),
            },
        );
        i = i + 1;
    }
    proof {
        assert forall|i: int| 0 <= i < codes@.len() implies {
            &&& offsets@[i] % 16 == 0
            &&& offsets@[i] + codes@[i]@.len() <= text@.len()
            &&& text@.subrange(offsets@[i] as int, offsets@[i] + codes@[i]@.len()) == codes@[i]@
        } by {
            lemma_layout_places_pieces(unnamed_pieces(codes@), codes@.len(), i);
        }
    }
    (text, offsets, functions)
}

} // verus!
