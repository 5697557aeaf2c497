//! What linking modules into a native executable decides before any file is
//! written: which modules can be packaged, the names they get, the C ABI
//! functions the executable exports, the execution-context size its wrappers
//! reserve, and the metadata bundle written beside it.

use vstd::prelude::*;
use crate::aot::{AotCompiledMetadata, AotTargetArchitecture};
use crate::c_source::ModuleSpec;
use crate::linker::{
    NativeLinkError, NativeLinkModule, NativeCAbiExport, NativePackagingTarget, CAbiExportModel,
    sanitize_identifier_text, sanitize_identifier, metadata_support_error, validation_matches,
    validate_metadata_support, cabi_exports, module_exports, copy_bytes,
};
use crate::linker::{
    HelloHostSpec, hello_host_result, hello_host_matches, hello_host_reads_state, hello_host_reads_state_exec,
    hello_host_handler_source_text, build_hello_host_handler_source,
};
use crate::hello_host::{HostCallAbi, import_base_fits, import_base_fits_exec, hello_host_source_text, build_hello_host_source};
use crate::package::{NativePackageMetadataBundle, NativePackageMetadataEntry, PackagedHostImportDescriptor, EntryModel};
use crate::text::{push_str, push_decimal, decimal, string_of};

verus! {

/// What linking a set of modules produces besides the object files: the
/// modules as the C sources see them, the metadata bundle, the exported C
/// ABI functions, the size of the execution context the wrappers reserve,
/// and the file name of each module's object in the work directory.
pub struct NativeLinkPlan {
    pub module_specs: Vec<ModuleSpec>,
    pub metadata_bundle: NativePackageMetadataBundle,
    pub cabi_exports: Vec<NativeCAbiExport>,
    pub execution_context_size: usize,
    pub object_file_names: Vec<String>,
}

pub open spec fn no_exports_text(name: Seq<char>) -> Seq<char> {
    "module '"@ + name + "' does not expose any C ABI compatible functions"@
}

pub open spec fn no_modules_text() -> Seq<char> {
    "native executable packaging requires at least one relocatable object"@
}

/// Why one module cannot be linked, if it cannot: its metadata did not
/// decode, it is not supported, or it exports no C ABI function.
pub open spec fn module_link_error(
    name: Seq<char>,
    decoded: Result<AotCompiledMetadata, String>,
    target: NativePackagingTarget,
) -> Option<Seq<char>> {
    match decoded {
        Err(t) => Some(t@),
        Ok(m) => match metadata_support_error(name, m, target) {
            Some(e) => Some(e),
            None => if cabi_exports(sanitize_identifier_text(name), m, m.functions@.len()).len() == 0 {
                Some(no_exports_text(name))
            } else {
                None
            },
        },
    }
}

/// The first error among the modules from `i` on.
pub open spec fn first_link_error(
    mods: Seq<NativeLinkModule>,
    decoded: Seq<Result<AotCompiledMetadata, String>>,
    target: NativePackagingTarget,
    i: nat,
) -> Option<Seq<char>>
    decreases mods.len() - i,
{
    if i >= mods.len() {
        None
    } else {
        match module_link_error(mods[i as int].name@, decoded[i as int], target) {
            Some(e) => Some(e),
            None => first_link_error(mods, decoded, target, i + 1),
        }
    }
}

/// Why the modules cannot be linked, if they cannot: there are none, the
/// host is no packaging target, or the first module that cannot be linked.
pub open spec fn native_link_error(
    mods: Seq<NativeLinkModule>,
    decoded: Seq<Result<AotCompiledMetadata, String>>,
    target: Result<NativePackagingTarget, NativeLinkError>,
) -> Option<Seq<char>> {
    if mods.len() == 0 {
        Some(no_modules_text())
    } else {
        match target {
            Err(e) => Some(e.text()),
            Ok(t) => first_link_error(mods, decoded, t, 0),
        }
    }
}

/// The exports of the first `k` modules, each with the sanitized name of
/// its module, in order.
pub open spec fn linked_exports(
    mods: Seq<NativeLinkModule>,
    decoded: Seq<Result<AotCompiledMetadata, String>>,
    k: nat,
) -> Seq<(Seq<char>, CAbiExportModel)>
    decreases k,
{
    if k == 0 {
        seq![]
    } else {
        let name = sanitize_identifier_text(mods[k - 1].name@);
        let m = decoded[k - 1]->Ok_0;
        linked_exports(mods, decoded, (k - 1) as nat) + cabi_exports(name, m, m.functions@.len()).map_values(
            |e: CAbiExportModel| (name, e),
        )
    }
}

/// The execution-context size of the first `k` modules: the largest of
/// their sizes, none taken below 16.
pub open spec fn linked_execution_context_size(decoded: Seq<Result<AotCompiledMetadata, String>>, k: nat) -> int
    decreases k,
{
    if k == 0 {
        0
    } else {
        let prev = linked_execution_context_size(decoded, (k - 1) as nat);
        let size = decoded[k - 1]->Ok_0.execution_context.size as int;
        let here = if size >= 16 {
            size
        } else {
            16
        };
        if prev >= here {
            prev
        } else {
            here
        }
    }
}

/// `<index>-<sanitized name>.o`.
pub open spec fn object_file_name_text(index: int, name: Seq<char>) -> Seq<char> {
    decimal(index as nat) + "-"@ + sanitize_identifier_text(name) + ".o"@
}

/// What a plan holds for modules that can all be linked.
pub open spec fn plan_matches(
    p: NativeLinkPlan,
    mods: Seq<NativeLinkModule>,
    decoded: Seq<Result<AotCompiledMetadata, String>>,
) -> bool {
    let exports = linked_exports(mods, decoded, mods.len());
    &&& p.module_specs@.len() == mods.len()
    &&& forall|i: int|
        0 <= i < mods.len() ==> (#[trigger] p.module_specs@[i]).sanitized_name@ == sanitize_identifier_text(
            mods[i].name@,
        ) && decoded[i] == Ok::<AotCompiledMetadata, String>(p.module_specs@[i].metadata)
    &&& p.metadata_bundle.modules@.len() == mods.len()
    &&& forall|i: int|
        0 <= i < mods.len() ==> (#[trigger] p.metadata_bundle.modules@[i]).model() == (EntryModel {
            name: mods[i].name@,
            sidecar: mods[i].metadata_sidecar_bytes@,
        })
    &&& p.metadata_bundle.host_imports@.len() == 0
    &&& exports_match(p.cabi_exports@, exports)
    &&& p.execution_context_size == linked_execution_context_size(decoded, mods.len())
    &&& p.object_file_names@.len() == mods.len()
    &&& forall|i: int|
        0 <= i < mods.len() ==> (#[trigger] p.object_file_names@[i])@ == object_file_name_text(i, mods[i].name@)
}

fn object_file_name(index: usize, name: &str) -> (res: String)
    ensures
        res@ == object_file_name_text(index as int, name@),
{
    let mut s = String::new();
    push_decimal(&mut s, index as u64);
    push_str(&mut s, "-");
    let id = sanitize_identifier(name);
    push_str(&mut s, id.as_str());
    push_str(&mut s, ".o");
    assert(s@ =~= object_file_name_text(index as int, name@));
    s
}

fn no_exports_error(name: &str) -> (res: NativeLinkError)
    ensures
        res.text() == no_exports_text(name@),
{
    let mut s = string_of("module '");
    push_str(&mut s, name);
    push_str(&mut s, "' does not expose any C ABI compatible functions");
    NativeLinkError::new(s)
}

/// Whether the exports are, in order, the given names and models.
pub open spec fn exports_match(v: Seq<NativeCAbiExport>, models: Seq<(Seq<char>, CAbiExportModel)>) -> bool {
    &&& v.len() == models.len()
    &&& forall|j: int|
        0 <= j < v.len() ==> (#[trigger] v[j]).module_name@ == models[j].0 && v[j].model() == models[j].1
}

proof fn lemma_linked_exports_step(
    mods: Seq<NativeLinkModule>,
    decoded: Seq<Result<AotCompiledMetadata, String>>,
    k: nat,
    before: Seq<NativeCAbiExport>,
    added: Seq<NativeCAbiExport>,
    m: AotCompiledMetadata,
)
    requires
        k < mods.len(),
        decoded[k as int] == Ok::<AotCompiledMetadata, String>(m),
        exports_match(before, linked_exports(mods, decoded, k)),
        added.len() == cabi_exports(sanitize_identifier_text(mods[k as int].name@), m, m.functions@.len()).len(),
        forall|i: int|
            0 <= i < added.len() ==> (#[trigger] added[i]).model() == cabi_exports(
                sanitize_identifier_text(mods[k as int].name@),
                m,
                m.functions@.len(),
            )[i] && added[i].module_name@ == sanitize_identifier_text(mods[k as int].name@),
    ensures
        exports_match(before + added, linked_exports(mods, decoded, k + 1)),
{
    let name = sanitize_identifier_text(mods[k as int].name@);
    let tail = cabi_exports(name, m, m.functions@.len()).map_values(|e: CAbiExportModel| (name, e));
    assert(linked_exports(mods, decoded, k + 1) == linked_exports(mods, decoded, k) + tail);
    let all = before + added;
    assert forall|j: int| 0 <= j < all.len() implies (#[trigger] all[j]).module_name@ == linked_exports(
        mods,
        decoded,
        k + 1,
    )[j].0 && all[j].model() == linked_exports(mods, decoded, k + 1)[j].1 by {
        if j >= before.len() {
            assert(all[j] == added[j - before.len()]);
        } else {
            assert(all[j] == before[j]);
        }
    }
}

/// Decides what linking `modules` produces, given the decoded metadata of
/// each (or why it did not decode) and the host's packaging target: the
/// first error among an empty module list, an unsupported host, and then,
/// module by module, undecodable metadata, an unsupported module and a
/// module without C ABI exports; else the plan, whose specs take over the
/// decoded metadata.
#[verifier::loop_isolation(false)]
pub fn plan_native_executable(
    modules: &[NativeLinkModule],
    metadata: Vec<Result<AotCompiledMetadata, String>>,
    target: Result<NativePackagingTarget, NativeLinkError>,
) -> (res: Result<NativeLinkPlan, NativeLinkError>)
    requires
        metadata@.len() == modules@.len(),
    ensures
        match native_link_error(modules@, metadata@, target) {
            Some(t) => res matches Err(e) && e.text() == t,
            None => res matches Ok(p) && plan_matches(p, modules@, metadata@),
        },
{
    if modules.len() == 0 {
        proof {
            reveal_strlit("native executable packaging requires at least one relocatable object");
        }
        return Err(NativeLinkError::new(
            string_of("native executable packaging requires at least one relocatable object"),
        ));
    }
    let ghost target_in = target;
    let target = match target {
        Ok(t) => t,
        Err(e) => {
            return Err(e);
        },
    };
    let ghost mods = modules@;
    let ghost decoded = metadata@;
    let count = modules.len();
    let mut rest = metadata;
    let mut module_specs: Vec<ModuleSpec> = Vec::new();
    let mut entries: Vec<NativePackageMetadataEntry> = Vec::new();
    let mut exports: Vec<NativeCAbiExport> = Vec::new();
    let mut object_file_names: Vec<String> = Vec::new();
    let mut execution_context_size: usize = 0;
    let mut i: usize = 0;
    while i < count
        invariant
            count == mods.len(),
            mods == modules@,
            decoded.len() == count,
            i <= count,
            rest@ == decoded.skip(i as int),
            first_link_error(mods, decoded, target, 0) == first_link_error(mods, decoded, target, i as nat),
            forall|j: int| 0 <= j < i ==> (#[trigger] decoded[j]) is Ok,
            module_specs@.len() == i,
            forall|j: int|
                0 <= j < i ==> (#[trigger] module_specs@[j]).sanitized_name@ == sanitize_identifier_text(
                    mods[j].name@,
                ) && decoded[j] == Ok::<AotCompiledMetadata, String>(module_specs@[j].metadata),
            entries@.len() == i,
            forall|j: int|
                0 <= j < i ==> (#[trigger] entries@[j]).model() == (EntryModel {
                    name: mods[j].name@,
                    sidecar: mods[j].metadata_sidecar_bytes@,
                }),
            exports_match(exports@, linked_exports(mods, decoded, i as nat)),
            target_in == Ok::<NativePackagingTarget, NativeLinkError>(target),
            execution_context_size == linked_execution_context_size(decoded, i as nat),
            object_file_names@.len() == i,
            forall|j: int|
                0 <= j < i ==> (#[trigger] object_file_names@[j])@ == object_file_name_text(j, mods[j].name@),
        decreases count - i,
    {
        let module = &modules[i];
        let decoded_here = rest.remove(0);
        assert(decoded_here == decoded[i as int]);
        let m = match decoded_here {
            Ok(m) => m,
            Err(t) => {
                return Err(NativeLinkError::new(t));
            },
        };
        match validate_metadata_support(module.name.as_str(), &m, target) {
            Ok(()) => {},
            Err(e) => {
                assert(module_link_error(mods[i as int].name@, decoded[i as int], target) == Some(e.text()));
                assert(first_link_error(mods, decoded, target, i as nat) == Some(e.text()));
                return Err(e);
            },
        }
        let size = if m.execution_context.size >= 16 {
            m.execution_context.size
        } else {
            16
        };
        if size > execution_context_size {
            execution_context_size = size;
        }
        let sanitized_name = sanitize_identifier(module.name.as_str());
        let mut module_exported = module_exports(sanitized_name.as_str(), &m);
        if module_exported.len() == 0 {
            assert(module_link_error(mods[i as int].name@, decoded[i as int], target) == Some(
                no_exports_text(mods[i as int].name@),
            ));
            assert(first_link_error(mods, decoded, target, i as nat) == Some(no_exports_text(mods[i as int].name@)));
            return Err(no_exports_error(module.name.as_str()));
        }
        let ghost before = exports@;
        proof {
            lemma_linked_exports_step(mods, decoded, i as nat, before, module_exported@, m);
        }
        exports.append(&mut module_exported);
        object_file_names.push(object_file_name(i, module.name.as_str()));
        entries.push(
            NativePackageMetadataEntry {
                module_name: string_of(module.name.as_str()),
                metadata_sidecar_bytes: copy_bytes(&module.metadata_sidecar_bytes),
            },
        );
        module_specs.push(ModuleSpec { sanitized_name, metadata: m });
        assert(rest@ =~= decoded.skip(i + 1));
        i = i + 1;
    }
    Ok(
        NativeLinkPlan {
            module_specs,
            metadata_bundle: NativePackageMetadataBundle { modules: entries, host_imports: Vec::new() },
            cabi_exports: exports,
            execution_context_size,
            object_file_names,
        },
    )
}


// --- the hello-host executable ------------------------------------------

/// What linking a hello-host guest produces besides the objects: what the
/// link needs of the guest, the metadata bundle, the symbol of the guest's
/// `run` preamble, and the C sources of the driver and of the host handler.
pub struct HelloHostLinkPlan {
    pub hello_host: HelloHostSpec,
    pub metadata_bundle: NativePackageMetadataBundle,
    pub preamble_symbol: String,
    pub driver_source: String,
    pub handler_source: String,
}

pub open spec fn hello_host_preamble_symbol_text() -> Seq<char> {
    "razero_hello_host_run_preamble"@
}

/// Why a hello-host guest cannot be linked, if it cannot: the host is no
/// packaging target, the guest's metadata did not decode, or the guest is
/// not a hello-host guest.
pub open spec fn hello_host_link_error(
    name: Seq<char>,
    decoded: Result<AotCompiledMetadata, String>,
    target: Result<NativePackagingTarget, NativeLinkError>,
) -> Option<Seq<char>> {
    match target {
        Err(e) => Some(e.text()),
        Ok(t) => match decoded {
            Err(s) => Some(s@),
            Ok(m) => match hello_host_result(name, m, Ok(t)) {
                Err(x) => Some(x),
                Ok(_) => None,
            },
        },
    }
}

/// The inputs on which linking a hello-host guest runs to its end: building
/// its spec does not stop on a data offset that reads state, and the
/// offsets its driver writes fit in `i32`.
pub open spec fn hello_host_link_safe(
    name: Seq<char>,
    decoded: Result<AotCompiledMetadata, String>,
    target: Result<NativePackagingTarget, NativeLinkError>,
    abi: HostCallAbi,
) -> bool {
    match (target, decoded) {
        (Ok(t), Ok(m)) => !hello_host_reads_state(m, Ok(t)) && match hello_host_result(name, m, Ok(t)) {
            Ok(model) => m.module_context.local_memory_begin + 8 <= i32::MAX && import_base_fits(
                m,
                abi,
                model.import.function_import_index,
            ),
            Err(_) => true,
        },
        _ => true,
    }
}

/// What a hello-host plan holds for a guest that can be linked.
pub open spec fn hello_host_plan_matches(
    p: HelloHostLinkPlan,
    guest: NativeLinkModule,
    m: AotCompiledMetadata,
    t: NativePackagingTarget,
    abi: HostCallAbi,
) -> bool {
    let model = hello_host_result(guest.name@, m, Ok(t))->Ok_0;
    &&& hello_host_matches(p.hello_host, m, model)
    &&& p.metadata_bundle.modules@.len() == 1
    &&& p.metadata_bundle.modules@[0].model() == (EntryModel {
        name: guest.name@,
        sidecar: guest.metadata_sidecar_bytes@,
    })
    &&& p.metadata_bundle.host_imports@.len() == 1
    &&& p.metadata_bundle.host_imports@[0].model() == model.import
    &&& p.preamble_symbol@ == hello_host_preamble_symbol_text()
    &&& p.driver_source@ == hello_host_source_text(m, p.hello_host, p.preamble_symbol@, t, abi)
    &&& p.handler_source@ == hello_host_handler_source_text(model.import.host_symbol_name)
}

/// Whether linking a hello-host guest runs to its end on these inputs, as
/// `hello_host_link_safe` says.
pub fn hello_host_link_is_safe(
    guest: &NativeLinkModule,
    metadata: &Result<AotCompiledMetadata, String>,
    target: &Result<NativePackagingTarget, NativeLinkError>,
    abi: HostCallAbi,
) -> (res: bool)
    ensures
        res == hello_host_link_safe(guest.name@, *metadata, *target, abi),
{
    match (target, metadata) {
        (Ok(t), Ok(m)) => {
            if hello_host_reads_state_exec(m, Ok(*t)) {
                return false;
            }
            match HelloHostSpec::from_metadata(guest.name.as_str(), m, Ok(*t)) {
                Err(_) => true,
                Ok(h) => {
                    let lmb = m.module_context.local_memory_begin;
                    lmb <= 0x7fff_fff7 && import_base_fits_exec(
                        m,
                        abi,
                        h.host_imports[0].descriptor.function_import_index,
                    )
                },
            }
        },
        _ => true,
    }
}

fn copy_descriptor(d: &PackagedHostImportDescriptor) -> (res: PackagedHostImportDescriptor)
    ensures
        res.model() == d.model(),
{
    PackagedHostImportDescriptor {
        guest_module_name: string_of(d.guest_module_name.as_str()),
        import_module: string_of(d.import_module.as_str()),
        import_name: string_of(d.import_name.as_str()),
        function_import_index: d.function_import_index,
        type_index: d.type_index,
        host_symbol_name: string_of(d.host_symbol_name.as_str()),
    }
}

/// Decides what linking a hello-host guest produces, given its decoded
/// metadata (or why it did not decode) and the host's packaging target:
/// the first error among an unsupported host, undecodable metadata and a
/// guest that is no hello-host guest; else the plan.
pub fn plan_hello_host_executable(
    guest: &NativeLinkModule,
    metadata: Result<AotCompiledMetadata, String>,
    target: Result<NativePackagingTarget, NativeLinkError>,
    abi: HostCallAbi,
) -> (res: Result<HelloHostLinkPlan, NativeLinkError>)
    requires
        hello_host_link_safe(guest.name@, metadata, target, abi),
    ensures
        match hello_host_link_error(guest.name@, metadata, target) {
            Some(x) => res matches Err(e) && e.text() == x,
            None => res matches Ok(p) && hello_host_plan_matches(p, *guest, metadata->Ok_0, target->Ok_0, abi),
        },
{
    let t = match target {
        Ok(t) => t,
        Err(e) => {
            return Err(e);
        },
    };
    let m = match metadata {
        Ok(m) => m,
        Err(s) => {
            return Err(NativeLinkError::new(s));
        },
    };
    let hello_host = match HelloHostSpec::from_metadata(guest.name.as_str(), &m, Ok(t)) {
        Ok(h) => h,
        Err(e) => {
            return Err(e);
        },
    };
    let ghost model = hello_host_result(guest.name@, m, Ok(t))->Ok_0;
    assert(hello_host.host_imports@[0].descriptor.model() == model.import);
    let mut entries: Vec<NativePackageMetadataEntry> = Vec::new();
    entries.push(
        NativePackageMetadataEntry {
            module_name: string_of(guest.name.as_str()),
            metadata_sidecar_bytes: copy_bytes(&guest.metadata_sidecar_bytes),
        },
    );
    let mut host_imports: Vec<PackagedHostImportDescriptor> = Vec::new();
    host_imports.push(copy_descriptor(&hello_host.host_imports[0].descriptor));
    let preamble_symbol = string_of("razero_hello_host_run_preamble");
    proof {
        reveal_strlit("razero_hello_host_run_preamble");
    }
    assert(hello_host.host_imports@[0].descriptor.function_import_index == model.import.function_import_index);
    let driver_source = build_hello_host_source(&m, &hello_host, preamble_symbol.as_str(), t, abi);
    let handler_source = build_hello_host_handler_source(hello_host.host_imports[0].descriptor.host_symbol_name.as_str());
    Ok(
        HelloHostLinkPlan {
            hello_host,
            metadata_bundle: NativePackageMetadataBundle { modules: entries, host_imports },
            preamble_symbol,
            driver_source,
            handler_source,
        },
    )
}

impl NativePackagingTarget {
    /// The file stem of the native entrypoint's assembly source for the
    /// target's architecture.
    pub fn entry_stem(&self) -> (res: &'static str)
        ensures
            res@ == match self.architecture {
                AotTargetArchitecture::X86_64 => "razero-amd64-entry"@,
                AotTargetArchitecture::Aarch64 => "razero-arm64-entry"@,
                AotTargetArchitecture::Unknown => "razero-entry"@,
            },
    {
        match self.architecture {
            AotTargetArchitecture::X86_64 => "razero-amd64-entry",
            AotTargetArchitecture::Aarch64 => "razero-arm64-entry",
            AotTargetArchitecture::Unknown => "razero-entry",
        }
    }
}

} // verus!
