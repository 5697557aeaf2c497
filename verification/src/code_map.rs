//! Finding things by code address: the function and the wasm source offset
//! of a program counter inside a module's executable, and the compiled
//! module whose executable holds an address.

use vstd::prelude::*;
use crate::engine_cache::SourceMap;

verus! {

/// Whether the values that are at most `x` all come before those that are
/// not, as a binary search for `x` needs.
pub open spec fn partitioned_at(s: Seq<usize>, x: int) -> bool {
    forall|i: int, j: int| 0 <= i < j < s.len() && #[trigger] s[j] <= x ==> #[trigger] s[i] <= x
}

/// Whether the values never decrease.
pub open spec fn sorted(s: Seq<usize>) -> bool {
    forall|i: int, j: int| 0 <= i <= j < s.len() ==> #[trigger] s[i] <= #[trigger] s[j]
}

/// Where the values that are at most `x` end: every value before it is at
/// most `x`, every value from it on is more.
pub open spec fn is_split(s: Seq<usize>, x: int, r: int) -> bool {
    &&& 0 <= r <= s.len()
    &&& forall|i: int| 0 <= i < r ==> #[trigger] s[i] <= x
    &&& forall|i: int| r <= i < s.len() ==> #[trigger] s[i] > x
}

/// The number of leading values that are at most `x` (std's
/// `partition_point` with `|v| v <= x`).
pub open spec fn split_point(s: Seq<usize>, x: int) -> int {
    choose|r: int| is_split(s, x, r)
}

pub proof fn lemma_split_unique(s: Seq<usize>, x: int, r1: int, r2: int)
    requires
        is_split(s, x, r1),
        is_split(s, x, r2),
    ensures
        r1 == r2,
{
    if r1 < r2 {
        assert(s[r1] > x);
        assert(s[r1] <= x);
    } else if r2 < r1 {
        assert(s[r2] > x);
        assert(s[r2] <= x);
    }
}

/// The number of leading values that are at most `x`, found by binary
/// search.
pub fn split_point_exec(s: &[usize], x: usize) -> (res: usize)
    requires
        partitioned_at(s@, x as int),
    ensures
        is_split(s@, x as int, res as int),
        res == split_point(s@, x as int),
{
    let mut lo: usize = 0;
    let mut hi: usize = s.len();
    while lo < hi
        invariant
            0 <= lo <= hi <= s@.len(),
            partitioned_at(s@, x as int),
            forall|i: int| 0 <= i < lo ==> #[trigger] s@[i] <= x,
            forall|i: int| hi <= i < s@.len() ==> #[trigger] s@[i] > x,
        decreases hi - lo,
    {
        let mid = lo + (hi - lo) / 2;
        if s[mid] <= x {
            assert forall|i: int| 0 <= i < mid + 1 implies #[trigger] s@[i] <= x by {
                if i < mid {
                    assert(s@[mid as int] <= x);
                }
            }
            lo = mid + 1;
        } else {
            hi = mid;
        }
    }
    proof {
        assert(is_split(s@, x as int, lo as int));
        let r = split_point(s@, x as int);
        assert(is_split(s@, x as int, r));
        lemma_split_unique(s@, x as int, r, lo as int);
    }
    lo
}

/// The local function whose code holds `addr`: the last one whose offset
/// from the executable's base is at most the address's; none for an
/// address outside the executable (or a null executable) or before the
/// first function.
pub open spec fn function_index_at(base: usize, len: usize, offsets: Seq<usize>, addr: usize) -> Option<u32> {
    if base == 0 || addr < base || addr >= base + len {
        None
    } else {
        let k = split_point(offsets, addr - base);
        if k > 0 {
            Some((k - 1) as u32)
        } else {
            None
        }
    }
}

/// The index of the local function whose code holds `addr`, in an
/// executable of `executable_len` bytes at `executable_base` whose
/// functions start at `function_offsets`.
pub fn function_index_of(executable_base: usize, executable_len: usize, function_offsets: &[usize], addr: usize) -> (res: Option<u32>)
    requires
        executable_base + executable_len <= usize::MAX,
        executable_base <= addr < executable_base + executable_len ==> partitioned_at(
            function_offsets@,
            addr - executable_base,
        ),
    ensures
        res == function_index_at(executable_base, executable_len, function_offsets@, addr),
{
    if executable_base == 0 || addr < executable_base || addr >= executable_base + executable_len {
        return None;
    }
    let rel = addr - executable_base;
    let index = split_point_exec(function_offsets, rel);
    if index > 0 {
        Some((index - 1) as u32)
    } else {
        None
    }
}

/// The wasm binary offset of the code at `addr`: that of the last source
/// map entry whose executable offset is at most the address's offset from
/// the base (0 for an address below the base), or 0 before the first entry.
pub open spec fn source_offset_at(base: usize, map_exec: Seq<usize>, map_wasm: Seq<u64>, addr: usize) -> u64 {
    let rel = if addr >= base {
        addr - base
    } else {
        0
    };
    let k = split_point(map_exec, rel);
    if k == 0 {
        0
    } else {
        map_wasm[k - 1]
    }
}

/// The wasm binary offset of the code at `addr` in an executable at
/// `executable_base`.
pub fn source_offset_for_pc(executable_base: usize, source_map: &SourceMap, addr: usize) -> (res: u64)
    requires
        ({
            let rel = if addr >= executable_base {
                addr - executable_base
            } else {
                0
            };
            &&& partitioned_at(source_map.executable_offsets@, rel)
            &&& split_point(source_map.executable_offsets@, rel) <= source_map.wasm_binary_offsets@.len()
        }),
    ensures
        res == source_offset_at(
            executable_base,
            source_map.executable_offsets@,
            source_map.wasm_binary_offsets@,
            addr,
        ),
{
    let rel = if addr >= executable_base {
        addr - executable_base
    } else {
        0
    };
    let index = split_point_exec(source_map.executable_offsets.as_slice(), rel);
    if index == 0 {
        0
    } else {
        source_map.wasm_binary_offsets[index - 1]
    }
}

// --- compiled modules by address -----------------------------------------

/// A compiled module's executable: where it starts, how long it is, and the
/// id of the module.
#[derive(Clone, Copy, Debug)]
pub struct ExecutableRange {
    pub base: usize,
    pub len: usize,
    pub module_id: [u8; 32],
}

/// The compiled modules with an executable, ordered by the executable's
/// base address.
pub struct SortedCompiledModules {
    entries: Vec<ExecutableRange>,
}

/// Whether the ranges are ordered by base, and each ends within the address
/// space.
pub open spec fn ranges_ok(s: Seq<ExecutableRange>) -> bool {
    &&& forall|i: int, j: int| 0 <= i <= j < s.len() ==> (#[trigger] s[i]).base <= (#[trigger] s[j]).base
    &&& forall|i: int| 0 <= i < s.len() ==> (#[trigger] s[i]).base + s[i].len <= usize::MAX
}

/// The number of ranges whose base is below `base`.
pub open spec fn count_below(s: Seq<ExecutableRange>, base: usize) -> nat
    decreases s.len(),
{
    if s.len() == 0 {
        0
    } else {
        count_below(s.drop_last(), base) + if s.last().base < base {
            1nat
        } else {
            0nat
        }
    }
}

/// The number of ranges whose base is at most `addr`.
pub open spec fn count_at_most(s: Seq<ExecutableRange>, addr: usize) -> nat
    decreases s.len(),
{
    if s.len() == 0 {
        0
    } else {
        count_at_most(s.drop_last(), addr) + if s.last().base <= addr {
            1nat
        } else {
            0nat
        }
    }
}

/// The first range whose base is `base`, from `i` on.
pub open spec fn first_with_base(s: Seq<ExecutableRange>, base: usize, i: nat) -> Option<nat>
    decreases s.len() - i,
{
    if i >= s.len() {
        None
    } else if s[i as int].base == base {
        Some(i)
    } else {
        first_with_base(s, base, i + 1)
    }
}

/// The module whose executable holds `addr`: the last one whose base is at
/// most the address, if the address is before its end.
pub open spec fn module_at(s: Seq<ExecutableRange>, addr: usize) -> Option<ExecutableRange> {
    let k = count_at_most(s, addr);
    if k == 0 {
        None
    } else {
        let c = s[k - 1];
        if c.base <= addr && addr < c.base + c.len {
            Some(c)
        } else {
            None
        }
    }
}

proof fn lemma_count_below_split(s: Seq<ExecutableRange>, base: usize, k: int)
    requires
        ranges_ok(s),
        0 <= k <= s.len(),
        forall|i: int| 0 <= i < k ==> (#[trigger] s[i]).base < base,
        forall|i: int| k <= i < s.len() ==> (#[trigger] s[i]).base >= base,
    ensures
        count_below(s, base) == k,
    decreases s.len(),
{
    if s.len() > 0 {
        let t = s.drop_last();
        if k == s.len() {
            assert forall|i: int| 0 <= i < k - 1 implies (#[trigger] t[i]).base < base by {
                assert(t[i] == s[i]);
            }
            lemma_count_below_split(t, base, k - 1);
        } else {
            assert forall|i: int| 0 <= i < k implies (#[trigger] t[i]).base < base by {
                assert(t[i] == s[i]);
            }
            assert forall|i: int| k <= i < t.len() implies (#[trigger] t[i]).base >= base by {
                assert(t[i] == s[i]);
            }
            lemma_count_below_split(t, base, k);
        }
    }
}

proof fn lemma_count_at_most_split(s: Seq<ExecutableRange>, addr: usize, k: int)
    requires
        0 <= k <= s.len(),
        forall|i: int| 0 <= i < k ==> (#[trigger] s[i]).base <= addr,
        forall|i: int| k <= i < s.len() ==> (#[trigger] s[i]).base > addr,
    ensures
        count_at_most(s, addr) == k,
    decreases s.len(),
{
    if s.len() > 0 {
        let t = s.drop_last();
        if k == s.len() {
            assert forall|i: int| 0 <= i < k - 1 implies (#[trigger] t[i]).base <= addr by {
                assert(t[i] == s[i]);
            }
            lemma_count_at_most_split(t, addr, k - 1);
        } else {
            assert forall|i: int| 0 <= i < k implies (#[trigger] t[i]).base <= addr by {
                assert(t[i] == s[i]);
            }
            assert forall|i: int| k <= i < t.len() implies (#[trigger] t[i]).base > addr by {
                assert(t[i] == s[i]);
            }
            lemma_count_at_most_split(t, addr, k);
        }
    }
}


proof fn lemma_count_below_sorted(s: Seq<ExecutableRange>, base: usize)
    requires
        ranges_ok(s),
    ensures
        count_below(s, base) <= s.len(),
        forall|i: int| 0 <= i < count_below(s, base) ==> (#[trigger] s[i]).base < base,
        forall|i: int| count_below(s, base) <= i < s.len() ==> (#[trigger] s[i]).base >= base,
    decreases s.len(),
{
    if s.len() > 0 {
        let t = s.drop_last();
        assert(ranges_ok(t)) by {
            assert forall|i: int, j: int| 0 <= i <= j < t.len() implies (#[trigger] t[i]).base
                <= (#[trigger] t[j]).base by {
                assert(t[i] == s[i] && t[j] == s[j]);
            }
            assert forall|i: int| 0 <= i < t.len() implies (#[trigger] t[i]).base + t[i].len <= usize::MAX by {
                assert(t[i] == s[i]);
            }
        }
        lemma_count_below_sorted(t, base);
        let cb = count_below(t, base);
        if s.last().base < base {
            assert forall|i: int| 0 <= i < s.len() implies (#[trigger] s[i]).base < base by {
                assert(s[i].base <= s[s.len() - 1].base);
            }
            if cb < t.len() {
                assert(t[cb as int] == s[cb as int]);
                assert(s[cb as int].base < base);
            }
        } else {
            assert forall|i: int| 0 <= i < count_below(s, base) implies (#[trigger] s[i]).base < base by {
                assert(t[i] == s[i]);
            }
            assert forall|i: int| count_below(s, base) <= i < s.len() implies (#[trigger] s[i]).base >= base by {
                if i < t.len() {
                    assert(t[i] == s[i]);
                }
            }
        }
    }
}

/// A module added with a non-empty executable at a base where no other
/// module's executable starts is the module found at that base.
pub proof fn lemma_added_module_found(s: Seq<ExecutableRange>, r: ExecutableRange)
    requires
        ranges_ok(s),
        r.len > 0,
        r.base + r.len <= usize::MAX,
        forall|i: int| 0 <= i < s.len() ==> (#[trigger] s[i]).base != r.base,
    ensures
        module_at(s.insert(count_below(s, r.base) as int, r), r.base) == Some(r),
{
    lemma_count_below_sorted(s, r.base);
    let k = count_below(s, r.base) as int;
    let t = s.insert(k, r);
    assert forall|i: int| 0 <= i < k + 1 implies (#[trigger] t[i]).base <= r.base by {
        if i < k {
            assert(t[i] == s[i]);
        }
    }
    assert forall|i: int| k + 1 <= i < t.len() implies (#[trigger] t[i]).base > r.base by {
        assert(t[i] == s[i - 1]);
    }
    lemma_count_at_most_split(t, r.base, k + 1);
    assert(t[k] == r);
}

/// Deleting the module at the base of a module just added, where no other
/// module's executable started, gives back the modules as they were.
pub proof fn lemma_add_then_delete(s: Seq<ExecutableRange>, r: ExecutableRange)
    requires
        ranges_ok(s),
        forall|i: int| 0 <= i < s.len() ==> (#[trigger] s[i]).base != r.base,
    ensures
        ({
            let t = s.insert(count_below(s, r.base) as int, r);
            first_with_base(t, r.base, 0) == Some(count_below(s, r.base))
                && t.remove(count_below(s, r.base) as int) == s
        }),
{
    lemma_count_below_sorted(s, r.base);
    let k = count_below(s, r.base);
    let t = s.insert(k as int, r);
    lemma_first_with_base_at(t, r.base, 0, k);
    assert(t.remove(k as int) =~= s);
}

proof fn lemma_first_with_base_at(t: Seq<ExecutableRange>, base: usize, i: nat, k: nat)
    requires
        i <= k < t.len(),
        t[k as int].base == base,
        forall|j: int| i <= j < k ==> (#[trigger] t[j]).base != base,
    ensures
        first_with_base(t, base, i) == Some(k),
    decreases k - i,
{
    if i < k {
        lemma_first_with_base_at(t, base, i + 1, k);
    }
}

impl SortedCompiledModules {
    pub closed spec fn view(&self) -> Seq<ExecutableRange> {
        self.entries@
    }

    #[verifier::type_invariant]
    closed spec fn inv(&self) -> bool {
        ranges_ok(self.entries@)
    }

    /// No modules.
    pub fn new() -> (res: Self)
        ensures
            res.view() == Seq::<ExecutableRange>::empty(),
            ranges_ok(res.view()),
    {
        SortedCompiledModules { entries: Vec::new() }
    }

    /// The modules, in order.
    pub fn entries(&self) -> (res: &Vec<ExecutableRange>)
        ensures
            res@ == self.view(),
    {
        &self.entries
    }

    /// Adds a module's executable before the first one whose base is not
    /// below its own, keeping the order.
    pub fn add(&mut self, range: ExecutableRange)
        requires
            range.base + range.len <= usize::MAX,
        ensures
            final(self).view() == old(self).view().insert(count_below(old(self).view(), range.base) as int, range),
            ranges_ok(old(self).view()),
            ranges_ok(final(self).view()),
    {
        proof {
            use_type_invariant(&*self);
        }
        let n = self.entries.len();
        let mut lo: usize = 0;
        let mut hi: usize = n;
        while lo < hi
            invariant
                n == self.entries@.len(),
                0 <= lo <= hi <= n,
                ranges_ok(self.entries@),
                forall|i: int| 0 <= i < lo ==> (#[trigger] self.entries@[i]).base < range.base,
                forall|i: int| hi <= i < n ==> (#[trigger] self.entries@[i]).base >= range.base,
            decreases hi - lo,
        {
            let mid = lo + (hi - lo) / 2;
            if self.entries[mid].base < range.base {
                lo = mid + 1;
            } else {
                hi = mid;
            }
        }
        proof {
            lemma_count_below_split(self.entries@, range.base, lo as int);
        }
        let ghost old_entries = self.entries@;
        let mut entries = Vec::new();
        std::mem::swap(&mut entries, &mut self.entries);
        entries.insert(lo, range);
        assert(ranges_ok(entries@)) by {
            assert forall|i: int, j: int| 0 <= i <= j < entries@.len() implies (#[trigger] entries@[i]).base
                <= (#[trigger] entries@[j]).base by {
                if i < lo && j > lo {
                    assert(entries@[i] == old_entries[i]);
                    assert(entries@[j] == old_entries[j - 1]);
                } else if i < lo && j == lo {
                    assert(entries@[i] == old_entries[i]);
                } else if i < lo {
                    assert(entries@[i] == old_entries[i]);
                    assert(entries@[j] == old_entries[j]);
                } else if i == lo && j > lo {
                    assert(entries@[j] == old_entries[j - 1]);
                } else if i > lo {
                    assert(entries@[i] == old_entries[i - 1]);
                    assert(entries@[j] == old_entries[j - 1]);
                }
            }
            assert forall|i: int| 0 <= i < entries@.len() implies (#[trigger] entries@[i]).base + entries@[i].len
                <= usize::MAX by {
                if i < lo {
                    assert(entries@[i] == old_entries[i]);
                } else if i > lo {
                    assert(entries@[i] == old_entries[i - 1]);
                }
            }
        }
        self.entries = entries;
    }

    /// Removes the first module whose executable starts at `base`, if any.
    pub fn delete(&mut self, base: usize)
        ensures
            match first_with_base(old(self).view(), base, 0) {
                Some(k) => final(self).view() == old(self).view().remove(k as int),
                None => final(self).view() == old(self).view(),
            },
            ranges_ok(old(self).view()),
            ranges_ok(final(self).view()),
    {
        proof {
            use_type_invariant(&*self);
        }
        let n = self.entries.len();
        let mut i: usize = 0;
        while i < n
            invariant
                n == self.entries@.len(),
                i <= n,
                ranges_ok(self.entries@),
                self.entries@ == old(self).view(),
                first_with_base(self.entries@, base, 0) == first_with_base(self.entries@, base, i as nat),
            decreases n - i,
        {
            if self.entries[i].base == base {
                let ghost old_entries = self.entries@;
                let mut entries = Vec::new();
                std::mem::swap(&mut entries, &mut self.entries);
                entries.remove(i);
                assert(ranges_ok(entries@)) by {
                    assert forall|a: int, b: int| 0 <= a <= b < entries@.len() implies (#[trigger] entries@[a]).base
                        <= (#[trigger] entries@[b]).base by {
                        let oa = if a < i { a } else { a + 1 };
                        let ob = if b < i { b } else { b + 1 };
                        assert(entries@[a] == old_entries[oa]);
                        assert(entries@[b] == old_entries[ob]);
                    }
                    assert forall|a: int| 0 <= a < entries@.len() implies (#[trigger] entries@[a]).base
                        + entries@[a].len <= usize::MAX by {
                        let oa = if a < i { a } else { a + 1 };
                        assert(entries@[a] == old_entries[oa]);
                    }
                }
                self.entries = entries;
                return;
            }
            i = i + 1;
        }
    }

    /// The module whose executable holds `addr`, as `module_at` says.
    pub fn of_addr(&self, addr: usize) -> (res: Option<ExecutableRange>)
        ensures
            res == module_at(self.view(), addr),
            ranges_ok(self.view()),
    {
        proof {
            use_type_invariant(self);
        }
        let n = self.entries.len();
        let mut lo: usize = 0;
        let mut hi: usize = n;
        while lo < hi
            invariant
                n == self.entries@.len(),
                0 <= lo <= hi <= n,
                ranges_ok(self.entries@),
                forall|i: int| 0 <= i < lo ==> (#[trigger] self.entries@[i]).base <= addr,
                forall|i: int| hi <= i < n ==> (#[trigger] self.entries@[i]).base > addr,
            decreases hi - lo,
        {
            let mid = lo + (hi - lo) / 2;
            if self.entries[mid].base <= addr {
                lo = mid + 1;
            } else {
                hi = mid;
            }
        }
        proof {
            lemma_count_at_most_split(self.entries@, addr, lo as int);
        }
        if lo == 0 {
            return None;
        }
        let candidate = self.entries[lo - 1];
        if candidate.base <= addr && addr < candidate.base + candidate.len {
            Some(candidate)
        } else {
            None
        }
    }
}

} // verus!
