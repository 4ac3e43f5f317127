use vstd::prelude::*;
use crate::ast::Value;
use crate::interpreter::{lemma_pairs_vw_from, pairs_vw};
use crate::semantics::{assoc_get, assoc_get_from, assoc_set, assoc_set_from};
use crate::strutil::{str_eq, str_to_string};

verus! {

/// A host-provided routine of the secondary, module-grouped registry: the
/// embedder hands in any callable over value lists, and the registry only
/// promises to look it up by exact name and invoke it.
pub enum Function<F> {
    Native(F),
}

/// A named group of host routines.
pub struct Module<F> {
    pub name: String,
    pub functions: Vec<(String, Function<F>)>,
}

/// The position of the first binding of a name in a routine list, if any.
pub open spec fn find_key_fn<F>(fs: Seq<(String, Function<F>)>, name: Seq<char>, i: nat) -> Option<
    int,
>
    decreases fs.len() - i,
    when i <= fs.len()
{
    if i >= fs.len() {
        None
    } else if fs[i as int].0@ == name {
        Some(i as int)
    } else {
        find_key_fn(fs, name, i + 1)
    }
}

/// The position a find yields lies in the list and bears the name.
pub proof fn lemma_find_key_fn_bounds<F>(fs: Seq<(String, Function<F>)>, name: Seq<char>, i: nat)
    requires
        i <= fs.len(),
    ensures
        match find_key_fn(fs, name, i) {
            Some(j) => i <= j < fs.len() && fs[j].0@ == name,
            None => true,
        },
    decreases fs.len() - i,
{
    if i < fs.len() && fs[i as int].0@ != name {
        lemma_find_key_fn_bounds(fs, name, i + 1);
    }
}

/// A scan whose prefix holds no binding of the name stops at the first one.
proof fn lemma_find_key_fn_at<F>(fs: Seq<(String, Function<F>)>, name: Seq<char>, i: nat)
    requires
        i < fs.len(),
        fs[i as int].0@ == name,
        forall|j: int| 0 <= j < i ==> (#[trigger] fs[j]).0@ != name,
    ensures
        find_key_fn(fs, name, 0) == Some(i as int),
    decreases i,
{
    lemma_find_key_fn_step(fs, name, 0, i);
}

/// Helper induction: the scan passes over a prefix without the name.
proof fn lemma_find_key_fn_step<F>(fs: Seq<(String, Function<F>)>, name: Seq<char>, s: nat, i: nat)
    requires
        s <= i < fs.len(),
        fs[i as int].0@ == name,
        forall|j: int| s <= j < i ==> (#[trigger] fs[j]).0@ != name,
    ensures
        find_key_fn(fs, name, s) == Some(i as int),
    decreases i - s,
{
    if s < i {
        lemma_find_key_fn_step(fs, name, s + 1, i);
    }
}

/// A list without the name anywhere past s yields no find.
proof fn lemma_find_key_fn_none<F>(fs: Seq<(String, Function<F>)>, name: Seq<char>, s: nat)
    requires
        s <= fs.len(),
        forall|j: int| s <= j < fs.len() ==> (#[trigger] fs[j]).0@ != name,
    ensures
        find_key_fn(fs, name, s) is None,
    decreases fs.len() - s,
{
    if s < fs.len() {
        lemma_find_key_fn_none(fs, name, s + 1);
    }
}

impl<F> Module<F> {
    /// An empty module of the given name.
    pub fn new(name: &str) -> (r: Self)
        ensures
            r.name@ == name@,
            r.functions@.len() == 0,
    {
        Module { name: str_to_string(name), functions: Vec::new() }
    }

    /// Binds a routine under a name, replacing an earlier binding of the
    /// same name in place, else appending it.
    #[verifier::loop_isolation(false)]
    pub fn insert(&mut self, function_name: &str, function: Function<F>)
        ensures
            final(self).name == old(self).name,
            ({
                match find_key_fn(old(self).functions@, function_name@, 0) {
                    None => final(self).functions@.len() == old(self).functions@.len() + 1
                        && final(self).functions@.last().0@ == function_name@ && final(self).functions@.last().1 == function && forall|j: int|
                        0 <= j < old(self).functions@.len() ==> final(self).functions@[j]
                            == old(self).functions@[j],
                    Some(i) => final(self).functions@.len() == old(self).functions@.len()
                        && final(self).functions@[i].0@ == function_name@ && final(self).functions@[i].1 == function && forall|j: int|
                        0 <= j < old(self).functions@.len() && j != i ==> final(self).functions@[j] == old(self).functions@[j],
                }
            }),
    {
        let mut i: usize = 0;
        while i < self.functions.len()
            invariant
                i <= self.functions@.len(),
                self.functions@ == old(self).functions@,
                self.name == old(self).name,
                forall|j: int|
                    0 <= j < i ==> (#[trigger] self.functions@[j]).0@ != function_name@,
            decreases self.functions@.len() - i,
        {
            if str_eq(self.functions[i].0.as_str(), function_name) {
                proof {
                    lemma_find_key_fn_at(old(self).functions@, function_name@, i as nat);
                }
                self.functions.remove(i);
                self.functions.insert(i, (str_to_string(function_name), function));
                return ;
            }
            i = i + 1;
        }
        proof {
            lemma_find_key_fn_none(old(self).functions@, function_name@, 0);
        }
        self.functions.push((str_to_string(function_name), function));
    }

    /// The first routine bound under a name, if any.
    pub fn get(&self, function_name: &str) -> (r: Option<&Function<F>>)
        ensures
            ({
                let f = find_key_fn(self.functions@, function_name@, 0);
                match r {
                    Some(g) => f matches Some(j) && g == &self.functions@[j].1,
                    None => f is None,
                }
            }),
    {
        let mut i: usize = 0;
        while i < self.functions.len()
            invariant
                i <= self.functions@.len(),
                find_key_fn(self.functions@, function_name@, i as nat) == find_key_fn(
                    self.functions@,
                    function_name@,
                    0,
                ),
            decreases self.functions@.len() - i,
        {
            if str_eq(self.functions[i].0.as_str(), function_name) {
                return Some(&self.functions[i].1);
            }
            i = i + 1;
        }
        None
    }
}

/// Whether every routine of a module accepts every argument list; the
/// registry's calls are made under this assumption, which the embedder
/// owes.
pub open spec fn module_wf<F: Fn(Vec<Value>) -> Value>(m: Module<F>) -> bool {
    forall|i: int, a: Vec<Value>|
        0 <= i < m.functions@.len() ==> #[trigger] (m.functions@[i].1->Native_0).requires((a,))
}

/// The host-side registry: named groups of native routines beside a plain
/// variable store.
pub struct Grimoire<F> {
    pub modules: Vec<(String, Module<F>)>,
    pub variables: Vec<(String, Value)>,
}

/// Whether every routine of every module accepts every argument list.
pub open spec fn grimoire_wf<F: Fn(Vec<Value>) -> Value>(g: Grimoire<F>) -> bool {
    forall|i: int| 0 <= i < g.modules@.len() ==> module_wf((#[trigger] g.modules@[i]).1)
}

/// The position of the first module of a name, if any.
pub open spec fn find_key_module<F>(
    ms: Seq<(String, Module<F>)>,
    name: Seq<char>,
    i: nat,
) -> Option<int>
    decreases ms.len() - i,
    when i <= ms.len()
{
    if i >= ms.len() {
        None
    } else if ms[i as int].0@ == name {
        Some(i as int)
    } else {
        find_key_module(ms, name, i + 1)
    }
}

/// The first module holding a binding of the name, with the binding's
/// position, if any.
pub open spec fn find_global<F>(ms: Seq<(String, Module<F>)>, name: Seq<char>, i: nat) -> Option<
    (int, int),
>
    decreases ms.len() - i,
    when i <= ms.len()
{
    if i >= ms.len() {
        None
    } else {
        match find_key_fn(ms[i as int].1.functions@, name, 0) {
            Some(j) => Some((i as int, j)),
            None => find_global(ms, name, i + 1),
        }
    }
}

/// A scan whose prefix holds no module of the name stops at the first one.
proof fn lemma_find_key_module_at<F>(ms: Seq<(String, Module<F>)>, name: Seq<char>, i: nat)
    requires
        i < ms.len(),
        ms[i as int].0@ == name,
        forall|j: int| 0 <= j < i ==> (#[trigger] ms[j]).0@ != name,
    ensures
        find_key_module(ms, name, 0) == Some(i as int),
    decreases i,
{
    lemma_find_key_module_step(ms, name, 0, i);
}

/// Helper induction: the scan passes over a prefix without the name.
proof fn lemma_find_key_module_step<F>(
    ms: Seq<(String, Module<F>)>,
    name: Seq<char>,
    s: nat,
    i: nat,
)
    requires
        s <= i < ms.len(),
        ms[i as int].0@ == name,
        forall|j: int| s <= j < i ==> (#[trigger] ms[j]).0@ != name,
    ensures
        find_key_module(ms, name, s) == Some(i as int),
    decreases i - s,
{
    if s < i {
        lemma_find_key_module_step(ms, name, s + 1, i);
    }
}

/// A list without the name anywhere past s yields no find.
proof fn lemma_find_key_module_none<F>(ms: Seq<(String, Module<F>)>, name: Seq<char>, s: nat)
    requires
        s <= ms.len(),
        forall|j: int| s <= j < ms.len() ==> (#[trigger] ms[j]).0@ != name,
    ensures
        find_key_module(ms, name, s) is None,
    decreases ms.len() - s,
{
    if s < ms.len() {
        lemma_find_key_module_none(ms, name, s + 1);
    }
}

impl<F: Fn(Vec<Value>) -> Value> Grimoire<F> {
    /// An empty registry.
    pub fn new() -> (r: Self)
        ensures
            r.modules@.len() == 0,
            r.variables@.len() == 0,
            grimoire_wf(r),
    {
        Grimoire { modules: Vec::new(), variables: Vec::new() }
    }

    /// Binds a variable, overwriting an earlier binding of the same name.
    pub fn set_var(&mut self, name: &str, value: Value)
        ensures
            final(self).modules == old(self).modules,
            pairs_vw(final(self).variables@) == assoc_set(
                pairs_vw(old(self).variables@),
                name@,
                value@,
            ),
    {
        let ghost m0 = pairs_vw(self.variables@);
        let mut i: usize = 0;
        while i < self.variables.len()
            invariant
                i <= self.variables@.len(),
                self.variables@ == old(self).variables@,
                self.modules == old(self).modules,
                m0 == pairs_vw(self.variables@),
                assoc_set_from(m0, name@, value@, i as nat) == assoc_set(m0, name@, value@),
            decreases self.variables@.len() - i,
        {
            proof {
                lemma_pairs_vw_from(self.variables@, 0);
            }
            if str_eq(self.variables[i].0.as_str(), name) {
                let ghost iv = i as int;
                self.variables.remove(i);
                self.variables.insert(i, (str_to_string(name), value));
                proof {
                    lemma_pairs_vw_from(self.variables@, 0);
                    lemma_pairs_vw_from(old(self).variables@, 0);
                    assert(pairs_vw(self.variables@) =~= m0.update(
                        iv,
                        (self.variables@[iv].0@, self.variables@[iv].1@),
                    ));
                    assert(pairs_vw(final(self).variables@) =~= assoc_set(
                        pairs_vw(old(self).variables@),
                        name@,
                        value@,
                    ));
                }
                return ;
            }
            i = i + 1;
        }
        proof {
            lemma_pairs_vw_from(self.variables@, 0);
        }
        let ghost iv = self.variables@.len() as int;
        self.variables.push((str_to_string(name), value));
        proof {
            lemma_pairs_vw_from(self.variables@, 0);
            lemma_pairs_vw_from(old(self).variables@, 0);
            assert(pairs_vw(self.variables@) =~= m0.push(
                (self.variables@[iv].0@, self.variables@[iv].1@),
            ));
            assert(pairs_vw(final(self).variables@) =~= assoc_set(
                pairs_vw(old(self).variables@),
                name@,
                value@,
            ));
        }
    }

    /// The first value bound to a variable name, if any.
    pub fn get_var(&self, name: &str) -> (r: Option<&Value>)
        ensures
            ({
                let sp = assoc_get(pairs_vw(self.variables@), name@);
                match r {
                    Some(v) => sp is Some && v@ == sp->0,
                    None => sp is None,
                }
            }),
    {
        let mut i: usize = 0;
        while i < self.variables.len()
            invariant
                i <= self.variables@.len(),
                assoc_get_from(pairs_vw(self.variables@), name@, i as nat) == assoc_get(
                    pairs_vw(self.variables@),
                    name@,
                ),
            decreases self.variables@.len() - i,
        {
            proof {
                lemma_pairs_vw_from(self.variables@, 0);
            }
            if str_eq(self.variables[i].0.as_str(), name) {
                return Some(&self.variables[i].1);
            }
            i = i + 1;
        }
        proof {
            lemma_pairs_vw_from(self.variables@, 0);
        }
        None
    }

    /// Adds a module under its own name, replacing an earlier module of
    /// the same name in place, else appending it.
    #[verifier::loop_isolation(false)]
    pub fn add_module(&mut self, module: Module<F>)
        requires
            grimoire_wf(*old(self)),
            module_wf(module),
        ensures
            final(self).variables == old(self).variables,
            grimoire_wf(*final(self)),
            ({
                match find_key_module(old(self).modules@, module.name@, 0) {
                    None => final(self).modules@.len() == old(self).modules@.len() + 1 && final(self).modules@.last().0@ == module.name@ && final(self).modules@.last().1
                        == module && forall|j: int|
                        0 <= j < old(self).modules@.len() ==> final(self).modules@[j] == old(
                            self,
                        ).modules@[j],
                    Some(i) => final(self).modules@.len() == old(self).modules@.len() && final(self).modules@[i].0@ == module.name@ && final(self).modules@[i].1 == module
                        && forall|j: int|
                        0 <= j < old(self).modules@.len() && j != i ==> final(self).modules@[j]
                            == old(self).modules@[j],
                }
            }),
    {
        let mut i: usize = 0;
        while i < self.modules.len()
            invariant
                i <= self.modules@.len(),
                self.modules@ == old(self).modules@,
                self.variables == old(self).variables,
                forall|j: int| 0 <= j < i ==> (#[trigger] self.modules@[j]).0@ != module.name@,
            decreases self.modules@.len() - i,
        {
            if str_eq(self.modules[i].0.as_str(), module.name.as_str()) {
                proof {
                    lemma_find_key_module_at(old(self).modules@, module.name@, i as nat);
                }
                let ghost iv = i as int;
                let key = module.name.clone();
                self.modules.remove(i);
                self.modules.insert(i, (key, module));
                proof {
                    assert(self.modules@ =~= old(self).modules@.update(
                        iv,
                        (self.modules@[iv].0, self.modules@[iv].1),
                    ));
                    assert(self.modules@[iv].1 == module);
                    assert forall|j: int|
                        0 <= j < self.modules@.len() implies module_wf(
                        (#[trigger] self.modules@[j]).1,
                    ) by {
                        if j == iv {
                            assert(self.modules@[j].1 == module);
                            assert(module_wf(module));
                        } else {
                            assert(self.modules@[j] == old(self).modules@[j]);
                            assert(module_wf(old(self).modules@[j].1));
                        }
                    }
                }
                return ;
            }
            i = i + 1;
        }
        proof {
            lemma_find_key_module_none(old(self).modules@, module.name@, 0);
        }
        let key = module.name.clone();
        self.modules.push((key, module));
        proof {
            assert forall|j: int|
                0 <= j < self.modules@.len() implies module_wf(
                (#[trigger] self.modules@[j]).1,
            ) by {
                if j < old(self).modules@.len() {
                    assert(self.modules@[j] == old(self).modules@[j]);
                }
            }
        }
    }

    /// Invokes a routine by module and function name, when both exist;
    /// what comes back is whatever the routine returned.
    pub fn call_function(&self, module: &str, function: &str, args: Vec<Value>) -> (r: Option<
        Value,
    >)
        requires
            grimoire_wf(*self),
        ensures
            ({
                match find_key_module(self.modules@, module@, 0) {
                    None => r is None,
                    Some(i) => match find_key_fn(self.modules@[i].1.functions@, function@, 0) {
                        None => r is None,
                        Some(j) => r matches Some(v) && (
                        self.modules@[i].1.functions@[j].1->Native_0).ensures((args,), v),
                    },
                }
            }),
    {
        let mut i: usize = 0;
        while i < self.modules.len()
            invariant
                i <= self.modules@.len(),
                grimoire_wf(*self),
                find_key_module(self.modules@, module@, i as nat) == find_key_module(
                    self.modules@,
                    module@,
                    0,
                ),
            decreases self.modules@.len() - i,
        {
            if str_eq(self.modules[i].0.as_str(), module) {
                let m = &self.modules[i].1;
                match m.get(function) {
                    Some(f) => {
                        let Function::Native(routine) = f;
                        proof {
                            lemma_find_key_fn_bounds(m.functions@, function@, 0);
                            let jj = find_key_fn(m.functions@, function@, 0)->0;
                            assert(0 <= jj < m.functions@.len());
                            assert(module_wf(self.modules@[i as int].1));
                            assert((m.functions@[jj].1->Native_0).requires((args,)));
                            assert(*f == m.functions@[jj].1);
                        }
                        let v = routine(args);
                        return Some(v);
                    },
                    None => {
                        return None;
                    },
                }
            }
            i = i + 1;
        }
        None
    }

    /// Invokes a routine by bare function name, searching the modules in
    /// the order they were added.
    pub fn call_global_function(&self, function: &str, args: Vec<Value>) -> (r: Option<Value>)
        requires
            grimoire_wf(*self),
        ensures
            ({
                match find_global(self.modules@, function@, 0) {
                    None => r is None,
                    Some((i, j)) => r matches Some(v) && (
                    self.modules@[i].1.functions@[j].1->Native_0).ensures((args,), v),
                }
            }),
    {
        let mut i: usize = 0;
        while i < self.modules.len()
            invariant
                i <= self.modules@.len(),
                grimoire_wf(*self),
                find_global(self.modules@, function@, i as nat) == find_global(
                    self.modules@,
                    function@,
                    0,
                ),
            decreases self.modules@.len() - i,
        {
            let m = &self.modules[i].1;
            match m.get(function) {
                Some(f) => {
                    let Function::Native(routine) = f;
                    proof {
                        lemma_find_key_fn_bounds(m.functions@, function@, 0);
                        let jj = find_key_fn(m.functions@, function@, 0)->0;
                        assert(0 <= jj < m.functions@.len());
                        assert(module_wf(self.modules@[i as int].1));
                        assert((m.functions@[jj].1->Native_0).requires((args,)));
                        assert(*f == m.functions@[jj].1);
                    }
                    let v = routine(args);
                    return Some(v);
                },
                None => {},
            }
            i = i + 1;
        }
        None
    }
}

} // verus!
