//! The `.razero-package` metadata bundle written beside linked native
//! executables: module names with their AOT metadata sidecars, and the host
//! imports that the executable was linked against.

use vstd::prelude::*;
use vstd::utf8::{decode_utf8, encode_utf8, valid_utf8};

use crate::le_bytes::{
    le_u32, le_u64, lemma_u32_le_at_encoding, lemma_u64_le_at_encoding, push_all, push_u32_le,
    push_u64_le, read_u32_le_at, read_u64_le_at, u32_le_at, u64_le_at,
};
use crate::text::{push_str, string_bytes, string_from_utf8, string_of, utf8_error_text};

verus! {

broadcast use vstd::utf8::encode_utf8_valid_utf8, vstd::utf8::encode_utf8_decode_utf8;

/// One guest module of a package: its name and serialized AOT metadata.
#[derive(Clone, Debug, Eq, PartialEq)]
pub struct NativePackageMetadataEntry {
    pub module_name: String,
    pub metadata_sidecar_bytes: Vec<u8>,
}

/// A host function import that a packaged guest was linked against.
#[derive(Clone, Debug, Eq, PartialEq)]
pub struct PackagedHostImportDescriptor {
    pub guest_module_name: String,
    pub import_module: String,
    pub import_name: String,
    pub function_import_index: u32,
    pub type_index: u32,
    pub host_symbol_name: String,
}

/// The bundle: the packaged modules and their host imports.
#[derive(Clone, Debug, Default, Eq, PartialEq)]
pub struct NativePackageMetadataBundle {
    pub modules: Vec<NativePackageMetadataEntry>,
    pub host_imports: Vec<PackagedHostImportDescriptor>,
}

/// The error of decoding a bundle.
#[derive(Clone, Debug, Eq, PartialEq)]
pub struct NativePackageMetadataError {
    message: String,
}

impl NativePackageMetadataError {
    /// The text of the message.
    pub closed spec fn text(&self) -> Seq<char> {
        self.message@
    }

    pub fn new(message: String) -> (res: Self)
        ensures
            res.text() == message@,
    {
        NativePackageMetadataError { message }
    }

    /// The error's message.
    pub fn message(&self) -> (res: String)
        ensures
            res@ == self.text(),
    {
        self.message.clone()
    }
}

pub struct EntryModel {
    pub name: Seq<char>,
    pub sidecar: Seq<u8>,
}

pub struct ImportModel {
    pub guest_module_name: Seq<char>,
    pub import_module: Seq<char>,
    pub import_name: Seq<char>,
    pub function_import_index: u32,
    pub type_index: u32,
    pub host_symbol_name: Seq<char>,
}

pub struct BundleModel {
    pub modules: Seq<EntryModel>,
    pub host_imports: Seq<ImportModel>,
}

impl NativePackageMetadataEntry {
    pub open spec fn model(&self) -> EntryModel {
        EntryModel { name: self.module_name@, sidecar: self.metadata_sidecar_bytes@ }
    }
}

impl PackagedHostImportDescriptor {
    pub open spec fn model(&self) -> ImportModel {
        ImportModel {
            guest_module_name: self.guest_module_name@,
            import_module: self.import_module@,
            import_name: self.import_name@,
            function_import_index: self.function_import_index,
            type_index: self.type_index,
            host_symbol_name: self.host_symbol_name@,
        }
    }
}

impl NativePackageMetadataBundle {
    pub open spec fn model(&self) -> BundleModel {
        BundleModel {
            modules: Seq::new(self.modules@.len(), |i: int| self.modules@[i].model()),
            host_imports: Seq::new(self.host_imports@.len(), |i: int| self.host_imports@[i].model()),
        }
    }
}

/// `RZPKG001`, the first eight bytes of every bundle.
pub open spec fn package_magic() -> Seq<u8> {
    seq![0x52u8, 0x5au8, 0x50u8, 0x4bu8, 0x47u8, 0x30u8, 0x30u8, 0x31u8]
}

// ----- encoding -----

/// A string: its UTF-8 byte length as a little-endian `u32`, then the bytes.
pub open spec fn encode_string(s: Seq<char>) -> Seq<u8> {
    le_u32(encode_utf8(s).len() as u32) + encode_utf8(s)
}

pub open spec fn encode_entry(e: EntryModel) -> Seq<u8> {
    encode_string(e.name) + (le_u64(e.sidecar.len() as u64) + e.sidecar)
}

pub open spec fn encode_entries(es: Seq<EntryModel>) -> Seq<u8>
    decreases es.len(),
{
    if es.len() == 0 {
        seq![]
    } else {
        encode_entries(es.drop_last()) + encode_entry(es.last())
    }
}

pub open spec fn encode_import(d: ImportModel) -> Seq<u8> {
    encode_string(d.guest_module_name) + (encode_string(d.import_module) + (encode_string(
        d.import_name,
    ) + (le_u32(d.function_import_index) + (le_u32(d.type_index) + encode_string(
        d.host_symbol_name,
    )))))
}

pub open spec fn encode_imports(ds: Seq<ImportModel>) -> Seq<u8>
    decreases ds.len(),
{
    if ds.len() == 0 {
        seq![]
    } else {
        encode_imports(ds.drop_last()) + encode_import(ds.last())
    }
}

/// The bundle's bytes.
pub open spec fn encode_bundle(m: BundleModel) -> Seq<u8> {
    package_magic() + (le_u32(m.modules.len() as u32) + (encode_entries(m.modules) + (le_u32(
        m.host_imports.len() as u32,
    ) + encode_imports(m.host_imports))))
}

// ----- decoding -----

/// Decodes a string at `p`: its characters and the position after it.
#[verifier::opaque]
pub open spec fn decode_string(b: Seq<u8>, p: int) -> Option<(Seq<char>, int)> {
    if b.len() < p + 4 {
        None
    } else {
        let n = u32_le_at(b, p) as int;
        if b.len() < p + 4 + n {
            None
        } else if !valid_utf8(b.subrange(p + 4, p + 4 + n)) {
            None
        } else {
            Some((decode_utf8(b.subrange(p + 4, p + 4 + n)), p + 4 + n))
        }
    }
}

#[verifier::opaque]
pub open spec fn decode_entry(b: Seq<u8>, p: int) -> Option<(EntryModel, int)> {
    match decode_string(b, p) {
        None => None,
        Some((name, q)) => if b.len() < q + 8 {
            None
        } else {
            let n = u64_le_at(b, q) as int;
            if b.len() < q + 8 + n {
                None
            } else {
                Some(
                    (
                        EntryModel { name, sidecar: b.subrange(q + 8, q + 8 + n) },
                        q + 8 + n,
                    ),
                )
            }
        },
    }
}

/// Decodes `n` modules from `p` on.
pub open spec fn decode_entries(b: Seq<u8>, p: int, n: nat) -> Option<(Seq<EntryModel>, int)>
    decreases n,
{
    if n == 0 {
        Some((seq![], p))
    } else {
        match decode_entries(b, p, (n - 1) as nat) {
            None => None,
            Some((es, q)) => match decode_entry(b, q) {
                None => None,
                Some((e, r)) => Some((es.push(e), r)),
            },
        }
    }
}

#[verifier::opaque]
pub open spec fn decode_import(b: Seq<u8>, p: int) -> Option<(ImportModel, int)> {
    match decode_string(b, p) {
        None => None,
        Some((g, p1)) => match decode_string(b, p1) {
            None => None,
            Some((m, p2)) => match decode_string(b, p2) {
                None => None,
                Some((n, p3)) => if b.len() < p3 + 8 {
                    None
                } else {
                    match decode_string(b, p3 + 8) {
                        None => None,
                        Some((h, p4)) => Some(
                            (
                                ImportModel {
                                    guest_module_name: g,
                                    import_module: m,
                                    import_name: n,
                                    function_import_index: u32_le_at(b, p3),
                                    type_index: u32_le_at(b, p3 + 4),
                                    host_symbol_name: h,
                                },
                                p4,
                            ),
                        ),
                    }
                },
            },
        },
    }
}

/// Decodes `n` host imports from `p` on.
pub open spec fn decode_imports(b: Seq<u8>, p: int, n: nat) -> Option<(Seq<ImportModel>, int)>
    decreases n,
{
    if n == 0 {
        Some((seq![], p))
    } else {
        match decode_imports(b, p, (n - 1) as nat) {
            None => None,
            Some((ds, q)) => match decode_import(b, q) {
                None => None,
                Some((d, r)) => Some((ds.push(d), r)),
            },
        }
    }
}

/// Decodes a bundle; `None` when the bytes are not one. The host import
/// section may be absent, but nothing may follow it.
pub open spec fn decode_bundle(b: Seq<u8>) -> Option<BundleModel> {
    if b.len() < 8 || b.subrange(0, 8) != package_magic() || b.len() < 12 {
        None
    } else {
        match decode_entries(b, 12, u32_le_at(b, 8) as nat) {
            None => None,
            Some((modules, p)) => if p == b.len() {
                Some(BundleModel { modules, host_imports: seq![] })
            } else if b.len() < p + 4 {
                None
            } else {
                match decode_imports(b, p + 4, u32_le_at(b, p) as nat) {
                    None => None,
                    Some((host_imports, r)) => if r == b.len() {
                        Some(BundleModel { modules, host_imports })
                    } else {
                        None
                    },
                }
            },
        }
    }
}

// ----- serializer -----

fn push_package_magic(buf: &mut Vec<u8>)
    ensures
        final(buf)@ == old(buf)@ + package_magic(),
{
    buf.push(0x52);
    buf.push(0x5a);
    buf.push(0x50);
    buf.push(0x4b);
    buf.push(0x47);
    buf.push(0x30);
    buf.push(0x30);
    buf.push(0x31);
    assert(buf@ =~= old(buf)@ + package_magic());
}

fn write_string(buf: &mut Vec<u8>, value: &String)
    ensures
        final(buf)@ == old(buf)@ + encode_string(value@),
{
    let bytes = string_bytes(value);
    push_u32_le(buf, bytes.len() as u32);
    push_all(buf, bytes);
    assert(buf@ =~= old(buf)@ + encode_string(value@));
}

fn write_entry(buf: &mut Vec<u8>, entry: &NativePackageMetadataEntry)
    ensures
        final(buf)@ == old(buf)@ + encode_entry(entry.model()),
{
    write_string(buf, &entry.module_name);
    push_u64_le(buf, entry.metadata_sidecar_bytes.len() as u64);
    push_all(buf, entry.metadata_sidecar_bytes.as_slice());
    assert(buf@ =~= old(buf)@ + encode_entry(entry.model()));
}

fn write_import(buf: &mut Vec<u8>, d: &PackagedHostImportDescriptor)
    ensures
        final(buf)@ == old(buf)@ + encode_import(d.model()),
{
    write_string(buf, &d.guest_module_name);
    write_string(buf, &d.import_module);
    write_string(buf, &d.import_name);
    push_u32_le(buf, d.function_import_index);
    push_u32_le(buf, d.type_index);
    write_string(buf, &d.host_symbol_name);
    assert(buf@ =~= old(buf)@ + encode_import(d.model()));
}

/// Encodes a bundle.
pub fn serialize_native_package_metadata_bundle(bundle: &NativePackageMetadataBundle) -> (res:
    Vec<u8>)
    ensures
        res@ == encode_bundle(bundle.model()),
{
    let ghost m = bundle.model();
    let mut buf: Vec<u8> = Vec::new();
    push_package_magic(&mut buf);
    push_u32_le(&mut buf, bundle.modules.len() as u32);
    let ghost pre = buf@;
    let mut i: usize = 0;
    while i < bundle.modules.len()
        invariant
            i <= bundle.modules@.len(),
            m == bundle.model(),
            buf@ == pre + encode_entries(m.modules.subrange(0, i as int)),
        decreases bundle.modules.len() - i,
    {
        write_entry(&mut buf, &bundle.modules[i]);
        proof {
            assert(m.modules.subrange(0, i + 1).drop_last() =~= m.modules.subrange(0, i as int));
        }
        i = i + 1;
    }
    assert(m.modules.subrange(0, m.modules.len() as int) =~= m.modules);
    let ghost mid = buf@;
    push_u32_le(&mut buf, bundle.host_imports.len() as u32);
    let ghost pre2 = buf@;
    let mut j: usize = 0;
    while j < bundle.host_imports.len()
        invariant
            j <= bundle.host_imports@.len(),
            m == bundle.model(),
            buf@ == pre2 + encode_imports(m.host_imports.subrange(0, j as int)),
        decreases bundle.host_imports.len() - j,
    {
        write_import(&mut buf, &bundle.host_imports[j]);
        proof {
            assert(m.host_imports.subrange(0, j + 1).drop_last() =~= m.host_imports.subrange(
                0,
                j as int,
            ));
        }
        j = j + 1;
    }
    assert(m.host_imports.subrange(0, m.host_imports.len() as int) =~= m.host_imports);
    assert(buf@ =~= encode_bundle(m));
    buf
}

// ----- decoding failures -----

/// Why decoding stops: a message, or a string whose bytes are not UTF-8,
/// reported with the field's message and `: invalid UTF-8: `, then std's
/// description of those bytes.
pub ghost enum DecodeFailure {
    Message(Seq<char>),
    InvalidUtf8(Seq<char>, Seq<u8>),
}

/// Whether an error's text is the one that a failure is reported with.
pub open spec fn failure_matches(f: DecodeFailure, text: Seq<char>) -> bool {
    match f {
        DecodeFailure::Message(m) => text == m,
        DecodeFailure::InvalidUtf8(m, bytes) => text == m + ": invalid UTF-8: "@ + utf8_error_text(bytes),
    }
}

pub open spec fn u32_field_text() -> Seq<char> {
    "native package metadata: invalid u32 field"@
}

/// Why a string at `p` does not decode, if it does not.
pub open spec fn string_failure(b: Seq<u8>, p: int, message: Seq<char>) -> Option<DecodeFailure> {
    if b.len() < p + 4 {
        Some(DecodeFailure::Message(u32_field_text()))
    } else {
        let n = u32_le_at(b, p) as int;
        if b.len() < p + 4 + n {
            Some(DecodeFailure::Message(message))
        } else if !valid_utf8(b.subrange(p + 4, p + 4 + n)) {
            Some(DecodeFailure::InvalidUtf8(message, b.subrange(p + 4, p + 4 + n)))
        } else {
            None
        }
    }
}

/// Where a string at `p` ends, when it decodes.
pub open spec fn string_end(b: Seq<u8>, p: int) -> int {
    match decode_string(b, p) {
        Some((_, q)) => q,
        None => p,
    }
}

/// Why a module entry at `p` does not decode, if it does not.
pub open spec fn entry_failure(b: Seq<u8>, p: int) -> Option<DecodeFailure> {
    match string_failure(b, p, "native package metadata: invalid module name"@) {
        Some(f) => Some(f),
        None => {
            let q = string_end(b, p);
            if b.len() < q + 8 {
                Some(DecodeFailure::Message("native package metadata: invalid u64 field"@))
            } else if b.len() < q + 8 + u64_le_at(b, q) {
                Some(DecodeFailure::Message("native package metadata: invalid module sidecar"@))
            } else {
                None
            }
        },
    }
}

/// Why a host import at `p` does not decode, if it does not.
pub open spec fn import_failure(b: Seq<u8>, p: int) -> Option<DecodeFailure> {
    match string_failure(b, p, "native package metadata: invalid guest module name"@) {
        Some(f) => Some(f),
        None => {
            let p1 = string_end(b, p);
            match string_failure(b, p1, "native package metadata: invalid import module"@) {
                Some(f) => Some(f),
                None => {
                    let p2 = string_end(b, p1);
                    match string_failure(b, p2, "native package metadata: invalid import name"@) {
                        Some(f) => Some(f),
                        None => {
                            let p3 = string_end(b, p2);
                            if b.len() < p3 + 8 {
                                Some(DecodeFailure::Message(u32_field_text()))
                            } else {
                                string_failure(b, p3 + 8, "native package metadata: invalid host symbol name"@)
                            }
                        },
                    }
                },
            }
        },
    }
}

/// Why the first `n` module entries from `p` on do not decode, if they do not.
pub open spec fn entries_failure(b: Seq<u8>, p: int, n: nat) -> Option<DecodeFailure>
    decreases n,
{
    if n == 0 {
        None
    } else {
        match decode_entries(b, p, (n - 1) as nat) {
            None => entries_failure(b, p, (n - 1) as nat),
            Some((_, q)) => entry_failure(b, q),
        }
    }
}

/// Why the first `n` host imports from `p` on do not decode, if they do not.
pub open spec fn imports_failure(b: Seq<u8>, p: int, n: nat) -> Option<DecodeFailure>
    decreases n,
{
    if n == 0 {
        None
    } else {
        match decode_imports(b, p, (n - 1) as nat) {
            None => imports_failure(b, p, (n - 1) as nat),
            Some((_, q)) => import_failure(b, q),
        }
    }
}

/// Why the bytes are not a bundle, if they are not: the first field that
/// does not decode, or bytes after the last host import.
pub open spec fn bundle_failure(b: Seq<u8>) -> Option<DecodeFailure> {
    if b.len() < 8 {
        Some(DecodeFailure::Message("native package metadata: invalid header length"@))
    } else if b.subrange(0, 8) != package_magic() {
        Some(DecodeFailure::Message("native package metadata: invalid magic number"@))
    } else if b.len() < 12 {
        Some(DecodeFailure::Message(u32_field_text()))
    } else {
        match decode_entries(b, 12, u32_le_at(b, 8) as nat) {
            None => entries_failure(b, 12, u32_le_at(b, 8) as nat),
            Some((_, p)) => if p == b.len() {
                None
            } else if b.len() < p + 4 {
                Some(DecodeFailure::Message(u32_field_text()))
            } else {
                match decode_imports(b, p + 4, u32_le_at(b, p) as nat) {
                    None => imports_failure(b, p + 4, u32_le_at(b, p) as nat),
                    Some((_, r)) => if r == b.len() {
                        None
                    } else {
                        Some(DecodeFailure::Message("native package metadata: unexpected trailing bytes"@))
                    },
                }
            },
        }
    }
}

proof fn lemma_entries_failure_grows(b: Seq<u8>, p: int, n: nat, m: nat)
    requires
        n <= m,
        decode_entries(b, p, n) is None,
    ensures
        entries_failure(b, p, m) == entries_failure(b, p, n),
    decreases m - n,
{
    if n < m {
        lemma_entries_failure_grows(b, p, n, (m - 1) as nat);
        assert(decode_entries(b, p, (m - 1) as nat) is None) by {
            lemma_entries_none_grows_from(b, p, n, (m - 1) as nat);
        }
    }
}

proof fn lemma_entries_none_grows_from(b: Seq<u8>, p: int, n: nat, m: nat)
    requires
        n <= m,
        decode_entries(b, p, n) is None,
    ensures
        decode_entries(b, p, m) is None,
    decreases m - n,
{
    if n < m {
        lemma_entries_none_grows_from(b, p, n + 1, m);
    }
}

proof fn lemma_imports_failure_grows(b: Seq<u8>, p: int, n: nat, m: nat)
    requires
        n <= m,
        decode_imports(b, p, n) is None,
    ensures
        imports_failure(b, p, m) == imports_failure(b, p, n),
    decreases m - n,
{
    if n < m {
        lemma_imports_failure_grows(b, p, n, (m - 1) as nat);
        assert(decode_imports(b, p, (m - 1) as nat) is None) by {
            lemma_decode_imports_none_grows(b, p, n, (m - 1) as nat);
        }
    }
}

// ----- decoder -----

fn metadata_error(message: &str) -> (e: NativePackageMetadataError)
    ensures
        e.text() == message@,
{
    NativePackageMetadataError::new(string_of(message))
}

fn read_string(b: &[u8], p: usize, message: &str) -> (res: Result<
    (String, usize),
    NativePackageMetadataError,
>)
    requires
        p <= b@.len(),
    ensures
        match decode_string(b@, p as int) {
            None => res is Err,
            Some((s, q)) => res matches Ok((t, r)) && t@ == s && r == q,
        },
        res matches Ok((t, r)) ==> p <= r <= b@.len(),
        (string_failure(b@, p as int, message@) is None) == (decode_string(b@, p as int) is Some),
        string_failure(b@, p as int, message@) matches Some(f) ==> (res matches Err(e) && failure_matches(
            f,
            e.text(),
        )),
{
    reveal(decode_string);
    if b.len() - p < 4 {
        return Err(metadata_error("native package metadata: invalid u32 field"));
    }
    let n = read_u32_le_at(b, p) as usize;
    if b.len() - (p + 4) < n {
        return Err(metadata_error(message));
    }
    let mut bytes: Vec<u8> = Vec::new();
    let mut i: usize = 0;
    while i < n
        invariant
            i <= n,
            p + 4 + n <= b@.len(),
            b@.len() <= usize::MAX,
            bytes@ == b@.subrange(p + 4, p + 4 + i),
        decreases n - i,
    {
        bytes.push(b[p + 4 + i]);
        i = i + 1;
        assert(bytes@ =~= b@.subrange(p + 4, p + 4 + i));
    }
    match string_from_utf8(bytes) {
        Ok(s) => Ok((s, p + 4 + n)),
        Err(err) => {
            let mut m = string_of(message);
            push_str(&mut m, ": invalid UTF-8: ");
            push_str(&mut m, err.as_str());
            assert(failure_matches(DecodeFailure::InvalidUtf8(message@, b@.subrange(p + 4, p + 4 + n)), m@));
            Err(NativePackageMetadataError::new(m))
        },
    }
}

fn read_entry(b: &[u8], p: usize) -> (res: Result<
    (NativePackageMetadataEntry, usize),
    NativePackageMetadataError,
>)
    requires
        p <= b@.len(),
    ensures
        match decode_entry(b@, p as int) {
            None => res is Err,
            Some((e, q)) => res matches Ok((t, r)) && t.model() == e && r == q,
        },
        res matches Ok((t, r)) ==> p <= r <= b@.len(),
        (entry_failure(b@, p as int) is None) == (decode_entry(b@, p as int) is Some),
        entry_failure(b@, p as int) matches Some(f) ==> (res matches Err(e) && failure_matches(f, e.text())),
{
    reveal(decode_entry);
    let (module_name, q) = match read_string(
        b,
        p,
        "native package metadata: invalid module name",
    ) {
        Ok(x) => x,
        Err(e) => return Err(e),
    };
    if b.len() - q < 8 {
        return Err(metadata_error("native package metadata: invalid u64 field"));
    }
    let len = read_u64_le_at(b, q);
    if ((b.len() - (q + 8)) as u64) < len {
        return Err(metadata_error("native package metadata: invalid module sidecar"));
    }
    let n = len as usize;
    let mut sidecar: Vec<u8> = Vec::new();
    let mut i: usize = 0;
    while i < n
        invariant
            i <= n,
            q + 8 + n <= b@.len(),
            b@.len() <= usize::MAX,
            sidecar@ == b@.subrange(q + 8, q + 8 + i),
        decreases n - i,
    {
        sidecar.push(b[q + 8 + i]);
        i = i + 1;
        assert(sidecar@ =~= b@.subrange(q + 8, q + 8 + i));
    }
    Ok((NativePackageMetadataEntry { module_name, metadata_sidecar_bytes: sidecar }, q + 8 + n))
}

fn read_import(b: &[u8], p: usize) -> (res: Result<
    (PackagedHostImportDescriptor, usize),
    NativePackageMetadataError,
>)
    requires
        p <= b@.len(),
    ensures
        match decode_import(b@, p as int) {
            None => res is Err,
            Some((d, q)) => res matches Ok((t, r)) && t.model() == d && r == q,
        },
        res matches Ok((t, r)) ==> p <= r <= b@.len(),
        (import_failure(b@, p as int) is None) == (decode_import(b@, p as int) is Some),
        import_failure(b@, p as int) matches Some(f) ==> (res matches Err(e) && failure_matches(f, e.text())),
{
    reveal(decode_import);
    let (guest_module_name, p1) = match read_string(
        b,
        p,
        "native package metadata: invalid guest module name",
    ) {
        Ok(x) => x,
        Err(e) => return Err(e),
    };
    let (import_module, p2) = match read_string(
        b,
        p1,
        "native package metadata: invalid import module",
    ) {
        Ok(x) => x,
        Err(e) => return Err(e),
    };
    let (import_name, p3) = match read_string(
        b,
        p2,
        "native package metadata: invalid import name",
    ) {
        Ok(x) => x,
        Err(e) => return Err(e),
    };
    if b.len() - p3 < 4 {
        return Err(metadata_error("native package metadata: invalid u32 field"));
    }
    let function_import_index = read_u32_le_at(b, p3);
    if b.len() - p3 < 8 {
        return Err(metadata_error("native package metadata: invalid u32 field"));
    }
    let type_index = read_u32_le_at(b, p3 + 4);
    let (host_symbol_name, p4) = match read_string(
        b,
        p3 + 8,
        "native package metadata: invalid host symbol name",
    ) {
        Ok(x) => x,
        Err(e) => return Err(e),
    };
    Ok(
        (
            PackagedHostImportDescriptor {
                guest_module_name,
                import_module,
                import_name,
                function_import_index,
                type_index,
                host_symbol_name,
            },
            p4,
        ),
    )
}

/// Whether decoding gets through the modules and the host imports but stops
/// before the end of the bytes.
pub open spec fn has_trailing_bytes(b: Seq<u8>) -> bool {
    &&& b.len() >= 12
    &&& b.subrange(0, 8) == package_magic()
    &&& decode_entries(b, 12, u32_le_at(b, 8) as nat) matches Some((_, p))
    &&& p != b.len()
    &&& b.len() >= p + 4
    &&& decode_imports(b, p + 4, u32_le_at(b, p) as nat) matches Some((_, r))
    &&& r != b.len()
}

/// Decodes a bundle. It fails exactly when the bytes are not a bundle (see
/// `decode_bundle`), and otherwise gives the bundle that they encode. A
/// short header, a wrong magic number, a missing module count and bytes
/// after the last host import fail with their own messages.
pub fn deserialize_native_package_metadata_bundle(bytes: &[u8]) -> (res: Result<
    NativePackageMetadataBundle,
    NativePackageMetadataError,
>)
    ensures
        match decode_bundle(bytes@) {
            None => res is Err,
            Some(m) => res matches Ok(bundle) && bundle.model() == m,
        },
        bytes@.len() < 8 ==> (res matches Err(e) && e.text() == "native package metadata: invalid header length"@),
        bytes@.len() >= 8 && bytes@.subrange(0, 8) != package_magic() ==> (res matches Err(e) && e.text()
            == "native package metadata: invalid magic number"@),
        8 <= bytes@.len() < 12 && bytes@.subrange(0, 8) == package_magic() ==> (res matches Err(e) && e.text()
            == "native package metadata: invalid u32 field"@),
        has_trailing_bytes(bytes@) ==> (res matches Err(e) && e.text()
            == "native package metadata: unexpected trailing bytes"@),
        bundle_failure(bytes@) matches Some(f) ==> (res matches Err(e) && failure_matches(f, e.text())),
{
    let b = bytes;
    if b.len() < 8 {
        return Err(metadata_error("native package metadata: invalid header length"));
    }
    if !(b[0] == 0x52 && b[1] == 0x5a && b[2] == 0x50 && b[3] == 0x4b && b[4] == 0x47 && b[5]
        == 0x30 && b[6] == 0x30 && b[7] == 0x31) {
        proof {
            if b@.subrange(0, 8) == package_magic() {
                assert(b@[0] == b@.subrange(0, 8)[0]);
                assert(b@[1] == b@.subrange(0, 8)[1]);
                assert(b@[2] == b@.subrange(0, 8)[2]);
                assert(b@[3] == b@.subrange(0, 8)[3]);
                assert(b@[4] == b@.subrange(0, 8)[4]);
                assert(b@[5] == b@.subrange(0, 8)[5]);
                assert(b@[6] == b@.subrange(0, 8)[6]);
                assert(b@[7] == b@.subrange(0, 8)[7]);
            }
        }
        return Err(metadata_error("native package metadata: invalid magic number"));
    }
    assert(b@.subrange(0, 8) =~= package_magic());
    if b.len() < 12 {
        return Err(metadata_error("native package metadata: invalid u32 field"));
    }
    let module_count = read_u32_le_at(b, 8);
    let mut modules: Vec<NativePackageMetadataEntry> = Vec::new();
    let mut pos: usize = 12;
    let mut i: u32 = 0;
    while i < module_count
        invariant
            i <= module_count,
            module_count == u32_le_at(b@, 8),
            b@ == bytes@,
            pos <= b@.len(),
            b@.len() >= 12,
            b@.subrange(0, 8) == package_magic(),
            decode_entries(b@, 12, i as nat) == Some(
                (Seq::new(modules@.len(), |k: int| modules@[k].model()), pos as int),
            ),
        decreases module_count - i,
    {
        let (entry, next) = match read_entry(b, pos) {
            Ok(x) => x,
            Err(e) => {
                proof {
                    assert(decode_entries(b@, 12, (i + 1) as nat) is None);
                    lemma_decode_entries_none_grows(b@, (i + 1) as nat, module_count as nat);
                    assert(decode_entries(b@, 12, module_count as nat) is None);
                    assert(decode_bundle(b@) is None);
                    lemma_entries_failure_grows(b@, 12, (i + 1) as nat, module_count as nat);
                    assert(entries_failure(b@, 12, (i + 1) as nat) == entry_failure(b@, pos as int));
                }
                return Err(e);
            },
        };
        let ghost old_models = Seq::new(modules@.len(), |k: int| modules@[k].model());
        modules.push(entry);
        assert(Seq::new(modules@.len(), |k: int| modules@[k].model()) =~= old_models.push(
            entry.model(),
        ));
        pos = next;
        i = i + 1;
    }
    if pos == b.len() {
        let bundle = NativePackageMetadataBundle { modules, host_imports: Vec::new() };
        assert(bundle.model().host_imports =~= seq![]);
        return Ok(bundle);
    }
    if b.len() - pos < 4 {
        return Err(metadata_error("native package metadata: invalid u32 field"));
    }
    let import_count = read_u32_le_at(b, pos);
    let start = pos + 4;
    let ghost entries_end = pos;
    pos = start;
    let mut host_imports: Vec<PackagedHostImportDescriptor> = Vec::new();
    let mut j: u32 = 0;
    while j < import_count
        invariant
            j <= import_count,
            import_count == u32_le_at(b@, entries_end as int),
            b@ == bytes@,
            start == entries_end + 4,
            pos <= b@.len(),
            b@.len() >= 12,
            b@.subrange(0, 8) == package_magic(),
            entries_end != b@.len(),
            entries_end + 4 <= b@.len(),
            decode_entries(b@, 12, u32_le_at(b@, 8) as nat) == Some(
                (Seq::new(modules@.len(), |k: int| modules@[k].model()), entries_end as int),
            ),
            decode_imports(b@, start as int, j as nat) == Some(
                (Seq::new(host_imports@.len(), |k: int| host_imports@[k].model()), pos as int),
            ),
        decreases import_count - j,
    {
        let (d, next) = match read_import(b, pos) {
            Ok(x) => x,
            Err(e) => {
                proof {
                    assert(decode_imports(b@, start as int, (j + 1) as nat) is None);
                    lemma_decode_imports_none_grows(
                        b@,
                        start as int,
                        (j + 1) as nat,
                        import_count as nat,
                    );
                    lemma_imports_failure_grows(b@, start as int, (j + 1) as nat, import_count as nat);
                    assert(imports_failure(b@, start as int, (j + 1) as nat) == import_failure(b@, pos as int));
                }
                return Err(e);
            },
        };
        let ghost old_models = Seq::new(host_imports@.len(), |k: int| host_imports@[k].model());
        host_imports.push(d);
        assert(Seq::new(host_imports@.len(), |k: int| host_imports@[k].model())
            =~= old_models.push(d.model()));
        pos = next;
        j = j + 1;
    }
    if pos != b.len() {
        return Err(metadata_error("native package metadata: unexpected trailing bytes"));
    }
    Ok(NativePackageMetadataBundle { modules, host_imports })
}

proof fn lemma_decode_entries_none_grows(b: Seq<u8>, n: nat, m: nat)
    requires
        n <= m,
        decode_entries(b, 12, n) is None,
    ensures
        decode_entries(b, 12, m) is None,
    decreases m - n,
{
    if n < m {
        lemma_decode_entries_none_grows(b, n + 1, m);
    }
}

proof fn lemma_decode_imports_none_grows(b: Seq<u8>, p: int, n: nat, m: nat)
    requires
        n <= m,
        decode_imports(b, p, n) is None,
    ensures
        decode_imports(b, p, m) is None,
    decreases m - n,
{
    if n < m {
        lemma_decode_imports_none_grows(b, p, n + 1, m);
    }
}

// ----- round trip -----

proof fn lemma_add_assoc(a: Seq<u8>, b: Seq<u8>, c: Seq<u8>)
    ensures
        a + (b + c) == (a + b) + c,
{
    assert(a + (b + c) =~= (a + b) + c);
}

/// The length limits of the bundle format: counts fit `u32`, string byte
/// lengths fit `u32`.
pub open spec fn entry_fits(e: EntryModel) -> bool {
    &&& encode_utf8(e.name).len() <= u32::MAX
    &&& e.sidecar.len() <= u64::MAX
}

pub open spec fn import_fits(d: ImportModel) -> bool {
    &&& encode_utf8(d.guest_module_name).len() <= u32::MAX
    &&& encode_utf8(d.import_module).len() <= u32::MAX
    &&& encode_utf8(d.import_name).len() <= u32::MAX
    &&& encode_utf8(d.host_symbol_name).len() <= u32::MAX
}

pub open spec fn bundle_fits(m: BundleModel) -> bool {
    &&& m.modules.len() <= u32::MAX
    &&& m.host_imports.len() <= u32::MAX
    &&& forall|i: int| 0 <= i < m.modules.len() ==> entry_fits(#[trigger] m.modules[i])
    &&& forall|i: int| 0 <= i < m.host_imports.len() ==> import_fits(#[trigger] m.host_imports[i])
}

proof fn lemma_decode_string(pre: Seq<u8>, s: Seq<char>, rest: Seq<u8>)
    requires
        encode_utf8(s).len() <= u32::MAX,
    ensures
        decode_string(pre + (encode_string(s) + rest), pre.len() as int) == Some(
            (s, (pre.len() + encode_string(s).len()) as int),
        ),
{
    reveal(decode_string);
    let u = encode_utf8(s);
    let l = le_u32(u.len() as u32);
    let b = pre + (encode_string(s) + rest);
    lemma_add_assoc(l, u, rest);
    lemma_u32_le_at_encoding(pre, u.len() as u32, u + rest);
    let p = pre.len() as int;
    assert(b.subrange(p + 4, p + 4 + u.len()) =~= u);
}

proof fn lemma_decode_entry(pre: Seq<u8>, e: EntryModel, rest: Seq<u8>)
    requires
        entry_fits(e),
    ensures
        decode_entry(pre + (encode_entry(e) + rest), pre.len() as int) == Some(
            (e, (pre.len() + encode_entry(e).len()) as int),
        ),
{
    reveal(decode_entry);
    let es = encode_string(e.name);
    let ll = le_u64(e.sidecar.len() as u64);
    let b = pre + (encode_entry(e) + rest);
    lemma_add_assoc(es, ll + e.sidecar, rest);
    lemma_decode_string(pre, e.name, (ll + e.sidecar) + rest);
    lemma_add_assoc(pre, es, (ll + e.sidecar) + rest);
    lemma_add_assoc(ll, e.sidecar, rest);
    lemma_u64_le_at_encoding(pre + es, e.sidecar.len() as u64, e.sidecar + rest);
    let q: int = pre.len() as int + es.len() as int;
    assert(b.subrange(q + 8, q + 8 + e.sidecar.len()) =~= e.sidecar);
}

proof fn lemma_decode_entries(pre: Seq<u8>, es: Seq<EntryModel>, rest: Seq<u8>)
    requires
        forall|i: int| 0 <= i < es.len() ==> entry_fits(#[trigger] es[i]),
    ensures
        decode_entries(pre + (encode_entries(es) + rest), pre.len() as int, es.len()) == Some(
            (es, (pre.len() + encode_entries(es).len()) as int),
        ),
    decreases es.len(),
{
    if es.len() == 0 {
        assert(es =~= seq![]);
    } else {
        let init = es.drop_last();
        let last = es.last();
        let ei = encode_entries(init);
        let el = encode_entry(last);
        assert(forall|i: int| 0 <= i < init.len() ==> init[i] == es[i]);
        lemma_add_assoc(ei, el, rest);
        lemma_decode_entries(pre, init, el + rest);
        lemma_add_assoc(pre, ei, el + rest);
        assert(entry_fits(es[es.len() - 1]));
        lemma_decode_entry(pre + ei, last, rest);
        assert(init.push(last) =~= es);
    }
}

proof fn lemma_decode_import_fields(b: Seq<u8>, p: int, d: ImportModel, p1: int, p2: int, p3: int, p4: int)
    requires
        decode_string(b, p) == Some((d.guest_module_name, p1)),
        decode_string(b, p1) == Some((d.import_module, p2)),
        decode_string(b, p2) == Some((d.import_name, p3)),
        b.len() >= p3 + 8,
        u32_le_at(b, p3) == d.function_import_index,
        u32_le_at(b, p3 + 4) == d.type_index,
        decode_string(b, p3 + 8) == Some((d.host_symbol_name, p4)),
    ensures
        decode_import(b, p) == Some((d, p4)),
{
    reveal(decode_import);
}

#[verifier::rlimit(30)]
proof fn lemma_decode_import(pre: Seq<u8>, d: ImportModel, rest: Seq<u8>)
    requires
        import_fits(d),
    ensures
        decode_import(pre + (encode_import(d) + rest), pre.len() as int) == Some(
            (d, (pre.len() + encode_import(d).len()) as int),
        ),
{
    let g = encode_string(d.guest_module_name);
    let m = encode_string(d.import_module);
    let n = encode_string(d.import_name);
    let f = le_u32(d.function_import_index);
    let t = le_u32(d.type_index);
    let h = encode_string(d.host_symbol_name);
    let b = pre + (encode_import(d) + rest);
    let r4 = h + rest;
    let r3 = f + (t + r4);
    let r2 = n + r3;
    let r1 = m + r2;
    assert(encode_import(d) + rest == g + r1) by {
        lemma_add_assoc(t, h, rest);
        lemma_add_assoc(f, t + h, rest);
        lemma_add_assoc(n, f + (t + h), rest);
        lemma_add_assoc(m, n + (f + (t + h)), rest);
        lemma_add_assoc(g, m + (n + (f + (t + h))), rest);
    }
    lemma_decode_string(pre, d.guest_module_name, r1);
    lemma_add_assoc(pre, g, r1);
    lemma_decode_string(pre + g, d.import_module, r2);
    lemma_add_assoc(pre + g, m, r2);
    lemma_decode_string(pre + g + m, d.import_name, r3);
    lemma_add_assoc(pre + g + m, n, r3);
    let p3 = pre + g + m + n;
    lemma_u32_le_at_encoding(p3, d.function_import_index, t + r4);
    lemma_add_assoc(p3, f, t + r4);
    lemma_u32_le_at_encoding(p3 + f, d.type_index, r4);
    lemma_add_assoc(p3 + f, t, r4);
    lemma_decode_string(p3 + f + t, d.host_symbol_name, rest);
    lemma_decode_import_fields(
        b,
        pre.len() as int,
        d,
        (pre + g).len() as int,
        (pre + g + m).len() as int,
        p3.len() as int,
        (p3 + f + t + h).len() as int,
    );
}

proof fn lemma_decode_imports(pre: Seq<u8>, ds: Seq<ImportModel>, rest: Seq<u8>)
    requires
        forall|i: int| 0 <= i < ds.len() ==> import_fits(#[trigger] ds[i]),
    ensures
        decode_imports(pre + (encode_imports(ds) + rest), pre.len() as int, ds.len()) == Some(
            (ds, (pre.len() + encode_imports(ds).len()) as int),
        ),
    decreases ds.len(),
{
    if ds.len() == 0 {
        assert(ds =~= seq![]);
    } else {
        let init = ds.drop_last();
        let last = ds.last();
        let ei = encode_imports(init);
        let el = encode_import(last);
        assert(forall|i: int| 0 <= i < init.len() ==> init[i] == ds[i]);
        lemma_add_assoc(ei, el, rest);
        lemma_decode_imports(pre, init, el + rest);
        lemma_add_assoc(pre, ei, el + rest);
        assert(import_fits(ds[ds.len() - 1]));
        lemma_decode_import(pre + ei, last, rest);
        assert(init.push(last) =~= ds);
    }
}

/// Decoding an encoded bundle gives the bundle back, when its counts and
/// string lengths fit the format's fields.
pub proof fn lemma_bundle_round_trip(m: BundleModel)
    requires
        bundle_fits(m),
    ensures
        decode_bundle(encode_bundle(m)) == Some(m),
{
    let magic = package_magic();
    let lc = le_u32(m.modules.len() as u32);
    let e = encode_entries(m.modules);
    let li = le_u32(m.host_imports.len() as u32);
    let i = encode_imports(m.host_imports);
    let b = encode_bundle(m);
    assert(b.subrange(0, 8) =~= magic);
    lemma_add_assoc(magic, lc, e + (li + i));
    lemma_u32_le_at_encoding(magic, m.modules.len() as u32, e + (li + i));
    let pre = magic + lc;
    lemma_decode_entries(pre, m.modules, li + i);
    lemma_add_assoc(pre, e, li + i);
    lemma_u32_le_at_encoding(pre + e, m.host_imports.len() as u32, i);
    lemma_add_assoc(pre + e, li, i);
    assert(i + seq![] =~= i);
    lemma_decode_imports(pre + e + li, m.host_imports, seq![]);
    assert(m == BundleModel { modules: m.modules, host_imports: m.host_imports });
}


/// An encoded bundle followed by more bytes is no bundle: decoding gets
/// through the modules and host imports, finds bytes left over, and fails
/// with "unexpected trailing bytes".
pub proof fn lemma_trailing_bytes_rejected(m: BundleModel, extra: Seq<u8>)
    requires
        bundle_fits(m),
        extra.len() > 0,
    ensures
        has_trailing_bytes(encode_bundle(m) + extra),
        decode_bundle(encode_bundle(m) + extra) is None,
        bundle_failure(encode_bundle(m) + extra) == Some(
            DecodeFailure::Message("native package metadata: unexpected trailing bytes"@),
        ),
{
    let magic = package_magic();
    let lc = le_u32(m.modules.len() as u32);
    let e = encode_entries(m.modules);
    let li = le_u32(m.host_imports.len() as u32);
    let i = encode_imports(m.host_imports);
    let b = encode_bundle(m) + extra;
    assert(b =~= magic + (lc + (e + (li + (i + extra)))));
    assert(b.subrange(0, 8) =~= magic);
    lemma_add_assoc(magic, lc, e + (li + (i + extra)));
    lemma_u32_le_at_encoding(magic, m.modules.len() as u32, e + (li + (i + extra)));
    let pre = magic + lc;
    lemma_decode_entries(pre, m.modules, li + (i + extra));
    lemma_add_assoc(pre, e, li + (i + extra));
    lemma_u32_le_at_encoding(pre + e, m.host_imports.len() as u32, i + extra);
    lemma_add_assoc(pre + e, li, i + extra);
    lemma_decode_imports(pre + e + li, m.host_imports, extra);
}

} // verus!
