//! The compiled modules that an engine holds: each module once, with the
//! number of times it was compiled and not yet deleted, and the modules with
//! an executable ordered by its address.

use vstd::prelude::*;
use crate::code_map::{
    count_below, first_with_base, lemma_add_then_delete, lemma_added_module_found, module_at, ranges_ok,
    ExecutableRange, SortedCompiledModules,
};

verus! {

/// A compiled module held by the engine: its id, its executable when it has
/// one, and how many compilations of it are live.
#[derive(Clone, Copy, Debug)]
pub struct RegisteredModule {
    pub module_id: [u8; 32],
    pub executable: Option<ExecutableRange>,
    pub ref_count: usize,
}

/// The first module from `i` on with the id `id`.
pub open spec fn find_module(s: Seq<RegisteredModule>, id: Seq<u8>, i: nat) -> Option<nat>
    decreases s.len() - i,
{
    if i >= s.len() {
        None
    } else if s[i as int].module_id@ == id {
        Some(i)
    } else {
        find_module(s, id, i + 1)
    }
}

/// The modules after one more compilation of module `id`: a module already
/// held counts one more; a new one is held once, with its executable.
pub open spec fn added(s: Seq<RegisteredModule>, id: [u8; 32], executable: Option<ExecutableRange>) -> Seq<
    RegisteredModule,
> {
    match find_module(s, id@, 0) {
        Some(k) => s.update(
            k as int,
            RegisteredModule { ref_count: (s[k as int].ref_count + 1) as usize, ..s[k as int] },
        ),
        None => s.push(RegisteredModule { module_id: id, executable, ref_count: 1 }),
    }
}

/// The modules after module `id` is deleted once: a module compiled more
/// than once counts one less; one compiled once is no longer held.
pub open spec fn deleted(s: Seq<RegisteredModule>, id: [u8; 32]) -> Seq<RegisteredModule> {
    match find_module(s, id@, 0) {
        Some(k) => if s[k as int].ref_count > 1 {
            s.update(k as int, RegisteredModule { ref_count: (s[k as int].ref_count - 1) as usize, ..s[k as int] })
        } else {
            s.remove(k as int)
        },
        None => s,
    }
}

/// The ordered executables after one more compilation of module `id`: a new
/// module's executable, when it has one, joins them in order of its base.
pub open spec fn sorted_after_add(
    s: Seq<RegisteredModule>,
    sorted: Seq<ExecutableRange>,
    id: [u8; 32],
    executable: Option<ExecutableRange>,
) -> Seq<ExecutableRange> {
    if find_module(s, id@, 0) is Some {
        sorted
    } else {
        match executable {
            Some(r) => sorted.insert(count_below(sorted, r.base) as int, r),
            None => sorted,
        }
    }
}

/// The ordered executables after module `id` is deleted once: when its last
/// compilation goes, the first executable at its base leaves them.
pub open spec fn sorted_after_delete(
    s: Seq<RegisteredModule>,
    sorted: Seq<ExecutableRange>,
    id: [u8; 32],
) -> Seq<ExecutableRange> {
    match find_module(s, id@, 0) {
        Some(k) => if s[k as int].ref_count <= 1 && s[k as int].executable is Some {
            match first_with_base(sorted, s[k as int].executable->0.base, 0) {
                Some(j) => sorted.remove(j as int),
                None => sorted,
            }
        } else {
            sorted
        },
        None => sorted,
    }
}

/// The modules and ordered executables after `n` compilations of module `id`.
pub open spec fn after_adds(
    s: Seq<RegisteredModule>,
    sorted: Seq<ExecutableRange>,
    id: [u8; 32],
    executable: Option<ExecutableRange>,
    n: nat,
) -> (Seq<RegisteredModule>, Seq<ExecutableRange>)
    decreases n,
{
    if n == 0 {
        (s, sorted)
    } else {
        let (s1, sorted1) = after_adds(s, sorted, id, executable, (n - 1) as nat);
        (added(s1, id, executable), sorted_after_add(s1, sorted1, id, executable))
    }
}

/// The modules and ordered executables after `k` deletions of module `id`.
pub open spec fn after_deletes(
    s: Seq<RegisteredModule>,
    sorted: Seq<ExecutableRange>,
    id: [u8; 32],
    k: nat,
) -> (Seq<RegisteredModule>, Seq<ExecutableRange>)
    decreases k,
{
    if k == 0 {
        (s, sorted)
    } else {
        let (s1, sorted1) = after_deletes(s, sorted, id, (k - 1) as nat);
        (deleted(s1, id), sorted_after_delete(s1, sorted1, id))
    }
}

/// Every held module counts at least one compilation.
pub open spec fn counts_ok(s: Seq<RegisteredModule>) -> bool {
    forall|i: int| 0 <= i < s.len() ==> (#[trigger] s[i]).ref_count >= 1
}

proof fn lemma_find_bounds(s: Seq<RegisteredModule>, id: Seq<u8>, i: nat)
    ensures
        find_module(s, id, i) matches Some(k) ==> i <= k < s.len() && s[k as int].module_id@ == id && forall|
            j: int,
        | i <= j < k ==> (#[trigger] s[j]).module_id@ != id,
        find_module(s, id, i) is None ==> forall|j: int| i <= j < s.len() ==> (#[trigger] s[j]).module_id@ != id,
    decreases s.len() - i,
{
    if i < s.len() {
        lemma_find_bounds(s, id, i + 1);
    }
}

proof fn lemma_find_is(s: Seq<RegisteredModule>, id: Seq<u8>, i: nat, k: nat)
    requires
        i <= k < s.len(),
        s[k as int].module_id@ == id,
        forall|j: int| i <= j < k ==> (#[trigger] s[j]).module_id@ != id,
    ensures
        find_module(s, id, i) == Some(k),
    decreases k - i,
{
    if i < k {
        lemma_find_is(s, id, i + 1, k);
    }
}

proof fn lemma_find_none(s: Seq<RegisteredModule>, id: Seq<u8>, i: nat)
    requires
        forall|j: int| i <= j < s.len() ==> (#[trigger] s[j]).module_id@ != id,
    ensures
        find_module(s, id, i) is None,
    decreases s.len() - i,
{
    if i < s.len() {
        lemma_find_none(s, id, i + 1);
    }
}

/// Compiling a module and deleting it again leaves the engine's modules as
/// they were.
pub proof fn lemma_add_then_delete_restores(s: Seq<RegisteredModule>, id: [u8; 32], executable: Option<ExecutableRange>)
    requires
        counts_ok(s),
        find_module(s, id@, 0) matches Some(k) ==> s[k as int].ref_count < usize::MAX,
    ensures
        deleted(added(s, id, executable), id) == s,
{
    lemma_find_bounds(s, id@, 0);
    match find_module(s, id@, 0) {
        Some(k) => {
            let t = added(s, id, executable);
            assert(s[k as int].ref_count >= 1);
            lemma_find_is(t, id@, 0, k);
            assert(t[k as int].ref_count > 1);
            assert(deleted(t, id) =~= s);
        },
        None => {
            let t = added(s, id, executable);
            lemma_find_is(t, id@, 0, s.len());
            assert(t.remove(s.len() as int) =~= s);
        },
    }
}

/// The module that `n` compilations and then `k` deletions of module `id`
/// leave: `n` adds to a registry that does not hold `id` give it `id` once
/// with count `n`; each delete takes one off, the module stays held exactly
/// while `k < n`, with count `n - k`, and the `n`-th delete removes it (the
/// registry holds one module fewer), its executable leaving the ordered
/// executables, so that no address finds it any more; later deletes change
/// nothing. `ranges` are the ordered executables, each at its own base.
pub proof fn lemma_adds_then_deletes(
    s: Seq<RegisteredModule>,
    ranges: Seq<ExecutableRange>,
    id: [u8; 32],
    executable: Option<ExecutableRange>,
    n: nat,
    k: nat,
)
    requires
        find_module(s, id@, 0) is None,
        1 <= n <= usize::MAX,
        ranges_ok(ranges),
        executable matches Some(r) ==> r.base + r.len <= usize::MAX && forall|i: int|
            0 <= i < ranges.len() ==> (#[trigger] ranges[i]).base != r.base,
    ensures
        ({
            let (s1, ranges1) = after_adds(s, ranges, id, executable, n);
            let (s2, ranges2) = after_deletes(s1, ranges1, id, k);
            &&& (find_module(s2, id@, 0) is Some <==> k < n)
            &&& k < n ==> s2.len() == s.len() + 1 && (find_module(s2, id@, 0) matches Some(j)
                && s2[j as int].ref_count == n - k && s2[j as int].executable == executable)
            &&& k < n ==> ranges2 == match executable {
                Some(r) => ranges.insert(count_below(ranges, r.base) as int, r),
                None => ranges,
            }
            &&& k < n ==> (executable matches Some(r) ==> (r.len > 0 ==> module_at(ranges2, r.base)
                == Some(r)))
            &&& k >= n ==> s2 == s && ranges2 == ranges
            &&& k >= n ==> forall|addr: usize| #[trigger] module_at(ranges2, addr) == module_at(ranges, addr)
        }),
{
    lemma_find_bounds(s, id@, 0);
    lemma_adds(s, ranges, id, executable, n);
    let (s1, ranges1) = after_adds(s, ranges, id, executable, n);
    lemma_deletes(s, ranges, id, executable, n, k);
    if k < n {
        let j = s.len();
        let s2 = s.push(RegisteredModule { module_id: id, executable, ref_count: (n - k) as usize });
        lemma_find_is(s2, id@, 0, j);
        match executable {
            Some(r) => {
                if r.len > 0 {
                    lemma_added_module_found(ranges, r);
                }
            },
            None => {},
        }
    }
}

/// Deleting a module that the registry does not hold changes neither the
/// modules nor the ordered executables.
pub proof fn lemma_delete_absent_unchanged(s: Seq<RegisteredModule>, ranges: Seq<ExecutableRange>, id: [u8; 32])
    requires
        find_module(s, id@, 0) is None,
    ensures
        deleted(s, id) == s,
        sorted_after_delete(s, ranges, id) == ranges,
{
}

/// The exact registry after `k` deletions that follow `n` compilations.
proof fn lemma_deletes(
    s: Seq<RegisteredModule>,
    ranges: Seq<ExecutableRange>,
    id: [u8; 32],
    executable: Option<ExecutableRange>,
    n: nat,
    k: nat,
)
    requires
        find_module(s, id@, 0) is None,
        1 <= n <= usize::MAX,
        ranges_ok(ranges),
        executable matches Some(r) ==> forall|i: int|
            0 <= i < ranges.len() ==> (#[trigger] ranges[i]).base != r.base,
    ensures
        ({
            let ranges1 = match executable {
                Some(r) => ranges.insert(count_below(ranges, r.base) as int, r),
                None => ranges,
            };
            let s1 = s.push(RegisteredModule { module_id: id, executable, ref_count: n as usize });
            after_deletes(s1, ranges1, id, k) == if k < n {
                (s.push(RegisteredModule { module_id: id, executable, ref_count: (n - k) as usize }), ranges1)
            } else {
                (s, ranges)
            }
        }),
    decreases k,
{
    lemma_find_bounds(s, id@, 0);
    let ranges1 = match executable {
        Some(r) => ranges.insert(count_below(ranges, r.base) as int, r),
        None => ranges,
    };
    let s1 = s.push(RegisteredModule { module_id: id, executable, ref_count: n as usize });
    if k > 0 {
        lemma_deletes(s, ranges, id, executable, n, (k - 1) as nat);
        let (sp, rp) = after_deletes(s1, ranges1, id, (k - 1) as nat);
        assert(after_deletes(s1, ranges1, id, k) == (deleted(sp, id), sorted_after_delete(sp, rp, id)));
        if k - 1 < n {
            let j = s.len();
            lemma_find_is(sp, id@, 0, j);
            if k == n {
                assert(sp.remove(j as int) =~= s);
                match executable {
                    Some(r) => {
                        lemma_add_then_delete(ranges, r);
                    },
                    None => {},
                }
            } else {
                assert(deleted(sp, id) =~= s.push(
                    RegisteredModule { module_id: id, executable, ref_count: (n - k) as usize },
                ));
            }
        } else {
            lemma_find_none(s, id@, 0);
        }
    }
}

proof fn lemma_adds(
    s: Seq<RegisteredModule>,
    ranges: Seq<ExecutableRange>,
    id: [u8; 32],
    executable: Option<ExecutableRange>,
    n: nat,
)
    requires
        find_module(s, id@, 0) is None,
        1 <= n <= usize::MAX,
    ensures
        after_adds(s, ranges, id, executable, n) == (
            s.push(RegisteredModule { module_id: id, executable, ref_count: n as usize }),
            match executable {
                Some(r) => ranges.insert(count_below(ranges, r.base) as int, r),
                None => ranges,
            },
        ),
    decreases n,
{
    lemma_find_bounds(s, id@, 0);
    assert(after_adds(s, ranges, id, executable, 0) == (s, ranges));
    if n == 1 {
        assert(added(s, id, executable) =~= s.push(
            RegisteredModule { module_id: id, executable, ref_count: 1 },
        ));
    } else {
        lemma_adds(s, ranges, id, executable, (n - 1) as nat);
        let prev = s.push(RegisteredModule { module_id: id, executable, ref_count: (n - 1) as usize });
        lemma_find_is(prev, id@, 0, s.len());
        assert(added(prev, id, executable) =~= s.push(
            RegisteredModule { module_id: id, executable, ref_count: n as usize },
        ));
    }
}

fn ids_equal(a: &[u8; 32], b: &[u8; 32]) -> (res: bool)
    ensures
        res == (a@ == b@),
{
    let mut i: usize = 0;
    while i < 32
        invariant
            i <= 32,
            a@.len() == 32,
            b@.len() == 32,
            forall|j: int| 0 <= j < i ==> a@[j] == b@[j],
        decreases 32 - i,
    {
        if a[i] != b[i] {
            return false;
        }
        i = i + 1;
    }
    assert(a@ =~= b@);
    true
}

/// The compiled modules of an engine, counted, and the executables ordered
/// by address.
pub struct CompiledModuleRegistry {
    modules: Vec<RegisteredModule>,
    sorted: SortedCompiledModules,
}

impl CompiledModuleRegistry {
    pub closed spec fn modules(&self) -> Seq<RegisteredModule> {
        self.modules@
    }

    pub closed spec fn sorted(&self) -> Seq<ExecutableRange> {
        self.sorted.view()
    }

    #[verifier::type_invariant]
    closed spec fn inv(&self) -> bool {
        counts_ok(self.modules@)
    }

    /// No modules.
    pub fn new() -> (res: Self)
        ensures
            res.modules() == Seq::<RegisteredModule>::empty(),
            res.sorted() == Seq::<ExecutableRange>::empty(),
    {
        CompiledModuleRegistry { modules: Vec::new(), sorted: SortedCompiledModules::new() }
    }

    fn position(&self, id: &[u8; 32]) -> (res: Option<usize>)
        ensures
            match find_module(self.modules(), id@, 0) {
                Some(k) => res matches Some(i) && i == k,
                None => res is None,
            },
    {
        let n = self.modules.len();
        proof {
            lemma_find_bounds(self.modules@, id@, 0);
        }
        let mut i: usize = 0;
        while i < n
            invariant
                n == self.modules@.len(),
                i <= n,
                find_module(self.modules@, id@, 0) == find_module(self.modules@, id@, i as nat),
            decreases n - i,
        {
            if ids_equal(&self.modules[i].module_id, id) {
                return Some(i);
            }
            i = i + 1;
        }
        None
    }

    /// How many modules are held (the engine's `compiled_module_count`), as a
    /// `u32`.
    pub fn compiled_module_count(&self) -> (res: u32)
        ensures
            res == self.modules().len() as u32,
    {
        self.modules.len() as u32
    }

    /// How many live compilations module `id` has, when it is held.
    pub fn ref_count(&self, id: &[u8; 32]) -> (res: Option<usize>)
        ensures
            match find_module(self.modules(), id@, 0) {
                Some(k) => res == Some(self.modules()[k as int].ref_count),
                None => res is None,
            },
    {
        proof {
            lemma_find_bounds(self.modules(), id@, 0);
        }
        match self.position(id) {
            Some(k) => Some(self.modules[k].ref_count),
            None => None,
        }
    }

    /// Records one more compilation of module `id`. A module already held
    /// counts one more and keeps its executable; a new one is held once, and
    /// its executable, when it has one, joins the ordered executables.
    pub fn add(&mut self, id: [u8; 32], executable: Option<ExecutableRange>)
        requires
            executable matches Some(r) ==> r.base + r.len <= usize::MAX,
            find_module(old(self).modules(), id@, 0) matches Some(k) ==> old(self).modules()[k as int].ref_count
                < usize::MAX,
        ensures
            final(self).modules() == added(old(self).modules(), id, executable),
            final(self).sorted() == sorted_after_add(old(self).modules(), old(self).sorted(), id, executable),
    {
        proof {
            use_type_invariant(&*self);
            lemma_find_bounds(self.modules@, id@, 0);
        }
        match self.position(&id) {
            Some(k) => {
                let m = self.modules[k];
                let mut modules = Vec::new();
                std::mem::swap(&mut modules, &mut self.modules);
                modules.set(k, RegisteredModule { ref_count: m.ref_count + 1, ..m });
                self.modules = modules;
            },
            None => {
                let mut modules = Vec::new();
                std::mem::swap(&mut modules, &mut self.modules);
                modules.push(RegisteredModule { module_id: id, executable, ref_count: 1 });
                self.modules = modules;
                match executable {
                    Some(r) => {
                        let mut sorted = SortedCompiledModules::new();
                        std::mem::swap(&mut sorted, &mut self.sorted);
                        sorted.add(r);
                        self.sorted = sorted;
                    },
                    None => {},
                }
            },
        }
    }

    /// Deletes one compilation of module `id`: a module compiled more than
    /// once counts one less; one compiled once is no longer held, and its
    /// executable leaves the ordered executables. An unknown module changes
    /// nothing.
    pub fn delete(&mut self, id: [u8; 32])
        ensures
            final(self).modules() == deleted(old(self).modules(), id),
            final(self).sorted() == sorted_after_delete(old(self).modules(), old(self).sorted(), id),
    {
        proof {
            use_type_invariant(&*self);
            lemma_find_bounds(self.modules@, id@, 0);
        }
        match self.position(&id) {
            Some(k) => {
                let m = self.modules[k];
                let mut modules = Vec::new();
                std::mem::swap(&mut modules, &mut self.modules);
                if m.ref_count > 1 {
                    modules.set(k, RegisteredModule { ref_count: m.ref_count - 1, ..m });
                    self.modules = modules;
                } else {
                    let ghost before = modules@;
                    modules.remove(k);
                    assert(counts_ok(modules@)) by {
                        assert forall|i: int| 0 <= i < modules@.len() implies (#[trigger] modules@[i]).ref_count >= 1 by {
                            let o = if i < k { i } else { i + 1 };
                            assert(modules@[i] == before[o]);
                        }
                    }
                    self.modules = modules;
                    match m.executable {
                        Some(r) => {
                            let mut sorted = SortedCompiledModules::new();
                            std::mem::swap(&mut sorted, &mut self.sorted);
                            sorted.delete(r.base);
                            self.sorted = sorted;
                        },
                        None => {},
                    }
                }
            },
            None => {},
        }
    }

    /// The held module whose executable holds `addr`.
    pub fn of_addr(&self, addr: usize) -> (res: Option<ExecutableRange>)
        ensures
            res == module_at(self.sorted(), addr),
    {
        self.sorted.of_addr(addr)
    }

    /// Forgets every module.
    pub fn clear(&mut self)
        ensures
            final(self).modules() == Seq::<RegisteredModule>::empty(),
            final(self).sorted() == Seq::<ExecutableRange>::empty(),
    {
        *self = CompiledModuleRegistry::new();
    }
}

} // verus!
