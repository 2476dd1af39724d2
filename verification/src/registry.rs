//! The bookkeeping of module registrations: which tables are bound to
//! which modules, which modules were made locally, and which are exported,
//! directly or as children of exported modules.
use vstd::prelude::*;

use crate::assemble::{
    lemma_all_upserted_len, lemma_module_index, lemma_upserted_len, module_index, module_upserted,
    module_views, modules_upserted, same_but_modules, upsert_extracted_module, ExtractedModule,
    ModuleView,
};
use crate::driver::texts;
use crate::text::{owned, str_eq};
use crate::{LuaApi, LuaField, LuaModule, LuaTy, LuaType};

verus! {

broadcast use vstd::std_specs::vec::group_vec_axioms;

/// What registration has learnt so far.
pub struct Registrations {
    /// Table bindings and the index of the module each refers to; a later
    /// binding of a name replaces an earlier one.
    pub table_bindings: Vec<(String, usize)>,
    /// Modules made by this crate's registrations.
    pub local_module_names: Vec<String>,
    /// Modules known to be exported.
    pub exported_module_names: Vec<String>,
    /// The modules nested in a module, by the module's name.
    pub module_children: Vec<(String, Vec<String>)>,
}

// ── specification ─────────────────────────────────────────────────────

/// The module index bound last to `name` among the first `n` bindings.
pub open spec fn binding_of(bs: Seq<(String, usize)>, name: Seq<char>, n: int) -> Option<usize>
    decreases n,
{
    if n <= 0 || n > bs.len() {
        None
    } else if bs[n - 1].0@ == name {
        Some(bs[n - 1].1)
    } else {
        binding_of(bs, name, n - 1)
    }
}

/// The first position from `i` on of the children of `name`.
pub open spec fn children_entry(cs: Seq<(String, Vec<String>)>, name: Seq<char>, i: int) -> Option<int>
    decreases cs.len() - i,
{
    if i < 0 || i >= cs.len() {
        None
    } else if cs[i].0@ == name {
        Some(i)
    } else {
        children_entry(cs, name, i + 1)
    }
}

/// The modules nested in `name`.
pub open spec fn children_of(cs: Seq<(String, Vec<String>)>, name: Seq<char>) -> Seq<Seq<char>> {
    match children_entry(cs, name, 0) {
        Some(i) => texts(cs[i].1@),
        None => Seq::empty(),
    }
}

/// All module names that occur as children.
pub open spec fn all_children(cs: Seq<(String, Vec<String>)>) -> Seq<Seq<char>>
    decreases cs.len(),
{
    if cs.len() == 0 {
        Seq::empty()
    } else {
        all_children(cs.drop_last()) + texts(cs.last().1@)
    }
}

/// The module after position `i` of the chain `p` is nested in the one at `i`.
pub open spec fn nested_at(cs: Seq<(String, Vec<String>)>, p: Seq<Seq<char>>, i: int) -> bool {
    children_of(cs, p[i]).contains(p[i + 1])
}

/// A chain of modules, each nested in the one before, none of them in `s`.
pub open spec fn is_chain(cs: Seq<(String, Vec<String>)>, s: Set<Seq<char>>, p: Seq<Seq<char>>) -> bool {
    &&& p.len() >= 1
    &&& forall|i: int| 0 <= i < p.len() ==> !s.contains(#[trigger] p[i])
    &&& forall|i: int| 0 <= i < p.len() - 1 ==> #[trigger] nested_at(cs, p, i)
}

/// Whether a chain of modules outside `s` leads from `from` to `to`.
pub open spec fn reaches(
    cs: Seq<(String, Vec<String>)>,
    s: Set<Seq<char>>,
    from: Seq<char>,
    to: Seq<char>,
) -> bool {
    exists|p: Seq<Seq<char>>| #[trigger] is_chain(cs, s, p) && p[0] == from && p.last() == to
}

/// The exported modules after marking `name` exported: those exported
/// before, and every module that a chain of modules not exported before
/// leads to from `name`.
pub open spec fn marked(cs: Seq<(String, Vec<String>)>, s: Set<Seq<char>>, name: Seq<char>) -> Set<
    Seq<char>,
> {
    s.union(Set::new(|n: Seq<char>| reaches(cs, s, name, n)))
}

pub open spec fn name_set(v: Seq<String>) -> Set<Seq<char>> {
    texts(v).to_set()
}

/// Every table binding refers to a module of the API.
pub open spec fn bindings_valid(bs: Seq<(String, usize)>, api: LuaApi) -> bool {
    forall|i: int| 0 <= i < bs.len() ==> (#[trigger] bs[i]).1 < api.modules@.len()
}

// ── lemmas ────────────────────────────────────────────────────────────

proof fn lemma_children_entry(cs: Seq<(String, Vec<String>)>, name: Seq<char>, i: int)
    requires
        0 <= i,
    ensures
        children_entry(cs, name, i) matches Some(k) ==> i <= k < cs.len() && cs[k].0@ == name,
    decreases cs.len() - i,
{
    if i < cs.len() && cs[i].0@ != name {
        lemma_children_entry(cs, name, i + 1);
    }
}

proof fn lemma_all_children(cs: Seq<(String, Vec<String>)>, k: int, c: Seq<char>)
    requires
        0 <= k < cs.len(),
        texts(cs[k].1@).contains(c),
    ensures
        all_children(cs).contains(c),
    decreases cs.len(),
{
    let a = all_children(cs.drop_last());
    let t = texts(cs.last().1@);
    if k < cs.len() - 1 {
        assert(cs.drop_last()[k] == cs[k]);
        lemma_all_children(cs.drop_last(), k, c);
        let j = choose|j: int| 0 <= j < a.len() && a[j] == c;
        assert((a + t)[j] == c);
    } else {
        let j = choose|j: int| 0 <= j < t.len() && t[j] == c;
        assert((a + t)[a.len() + j] == c);
    }
}

proof fn lemma_child_in_universe(cs: Seq<(String, Vec<String>)>, name: Seq<char>, c: Seq<char>)
    requires
        children_of(cs, name).contains(c),
    ensures
        all_children(cs).to_set().contains(c),
{
    lemma_children_entry(cs, name, 0);
    let k = children_entry(cs, name, 0)->0;
    lemma_all_children(cs, k, c);
}

/// What is left to mark: the names that can still be marked, `name`
/// included, that are not marked yet.
pub open spec fn unmarked(cs: Seq<(String, Vec<String>)>, name: Seq<char>, s: Set<Seq<char>>) -> nat {
    all_children(cs).to_set().insert(name).difference(s).len()
}

proof fn lemma_unmarked_decreases(
    cs: Seq<(String, Vec<String>)>,
    name: Seq<char>,
    s: Set<Seq<char>>,
    kid: Seq<char>,
    s2: Set<Seq<char>>,
)
    requires
        !s.contains(name),
        s2.contains(name),
        s.subset_of(s2),
        children_of(cs, name).contains(kid),
    ensures
        unmarked(cs, kid, s2) < unmarked(cs, name, s),
{
    lemma_child_in_universe(cs, name, kid);
    let u = all_children(cs).to_set();
    let a = u.insert(kid).difference(s2);
    let b = u.insert(name).difference(s);
    vstd::seq_lib::seq_to_set_is_finite(all_children(cs));
    assert(b.finite());
    assert(a.subset_of(b.remove(name)));
    vstd::set_lib::lemma_len_subset(a, b.remove(name));
    assert(b.contains(name));
}

proof fn lemma_chain_extend(
    cs: Seq<(String, Vec<String>)>,
    s: Set<Seq<char>>,
    s2: Set<Seq<char>>,
    name: Seq<char>,
    kid: Seq<char>,
    n: Seq<char>,
)
    requires
        s.subset_of(s2),
        !s.contains(name),
        children_of(cs, name).contains(kid),
        reaches(cs, s2, kid, n),
    ensures
        reaches(cs, s, name, n),
{
    let p = choose|p: Seq<Seq<char>>| #[trigger] is_chain(cs, s2, p) && p[0] == kid && p.last() == n;
    let q = seq![name] + p;
    assert forall|i: int| 0 <= i < q.len() implies !s.contains(#[trigger] q[i]) by {
        if i > 0 {
            assert(q[i] == p[i - 1]);
            assert(!s2.contains(p[i - 1]));
        }
    }
    assert forall|i: int| 0 <= i < q.len() - 1 implies #[trigger] nested_at(cs, q, i) by {
        if i > 0 {
            assert(q[i] == p[i - 1]);
            assert(q[i + 1] == p[i]);
            assert(nested_at(cs, p, i - 1));
        } else {
            assert(q[1] == p[0]);
        }
    }
    assert(is_chain(cs, s, q));
    assert(q.last() == p.last());
}

pub(crate) proof fn lemma_chain_start(cs: Seq<(String, Vec<String>)>, s: Set<Seq<char>>, name: Seq<char>)
    requires
        !s.contains(name),
    ensures
        reaches(cs, s, name, name),
{
    let p = seq![name];
    assert(is_chain(cs, s, p));
}

// ── marking ───────────────────────────────────────────────────────────

fn names_contain(names: &Vec<String>, n: &str) -> (r: bool)
    ensures
        r == name_set(names@).contains(n@),
{
    let mut i: usize = 0;
    while i < names.len()
        invariant
            i <= names.len(),
            forall|j: int| 0 <= j < i ==> texts(names@)[j] != n@,
        decreases names.len() - i,
    {
        if str_eq(names[i].as_str(), n) {
            assert(texts(names@)[i as int] == n@);
            assert(texts(names@).contains(n@));
            return true;
        }
        i += 1;
    }
    assert(!texts(names@).contains(n@));
    false
}

fn children_list(cs: &Vec<(String, Vec<String>)>, name: &str) -> (r: Vec<String>)
    ensures
        texts(r@) == children_of(cs@, name@),
{
    proof {
        lemma_children_entry(cs@, name@, 0);
    }
    let mut i: usize = 0;
    while i < cs.len()
        invariant
            i <= cs.len(),
            children_entry(cs@, name@, 0) == children_entry(cs@, name@, i as int),
        decreases cs.len() - i,
    {
        if str_eq(cs[i].0.as_str(), name) {
            let list = &cs[i].1;
            let mut out: Vec<String> = Vec::new();
            let mut j: usize = 0;
            while j < list.len()
                invariant
                    j <= list.len(),
                    out@.len() == j,
                    forall|k: int| 0 <= k < j ==> (#[trigger] out@[k])@ == list@[k]@,
                decreases list.len() - j,
            {
                out.push(owned(list[j].as_str()));
                j += 1;
            }
            assert(texts(out@) =~= texts(list@));
            return out;
        }
        i += 1;
    }
    let none: Vec<String> = Vec::new();
    assert(texts(none@) =~= Seq::<Seq<char>>::empty());
    none
}

/// The marking step: `name` and, through the modules nested in it, every
/// module not marked yet that it leads to.
fn mark_from(before: Vec<String>, cs: &Vec<(String, Vec<String>)>, name: &str) -> (r: Vec<String>)
    ensures
        r@.len() >= before@.len(),
        r@.subrange(0, before@.len() as int) == before@,
        name_set(r@).contains(name@),
        forall|n: Seq<char>|
            #![trigger name_set(r@).contains(n)]
            name_set(r@).contains(n) && !name_set(before@).contains(n) ==> {
                &&& forall|c: Seq<char>| children_of(cs@, n).contains(c) ==> name_set(r@).contains(c)
                &&& reaches(cs@, name_set(before@), name@, n)
            },
    decreases unmarked(cs@, name@, name_set(before@)),
{
    let ghost s = name_set(before@);
    let ghost e0 = before@;
    if names_contain(&before, name) {
        assert(before@.subrange(0, e0.len() as int) =~= e0);
        return before;
    }
    let mut exported = before;
    exported.push(owned(name));
    let ghost s1 = name_set(exported@);
    proof {
        assert(texts(exported@) =~= texts(e0).push(name@));
        texts(e0).lemma_push_to_set_commute(name@);
        assert(s1 =~= s.insert(name@));
        lemma_chain_start(cs@, s, name@);
        assert(exported@.subrange(0, e0.len() as int) =~= e0);
    }
    let kids = children_list(cs, name);
    let mut k: usize = 0;
    while k < kids.len()
        invariant
            e0 == before@,
            s == name_set(e0),
            !s.contains(name@),
            texts(kids@) == children_of(cs@, name@),
            k <= kids.len(),
            exported@.len() >= e0.len() + 1,
            exported@.subrange(0, e0.len() as int) == e0,
            name_set(exported@).contains(name@),
            s.subset_of(name_set(exported@)),
            forall|j: int| 0 <= j < k ==> name_set(exported@).contains(#[trigger] kids@[j]@),
            forall|n: Seq<char>|
                #![trigger name_set(exported@).contains(n)]
                name_set(exported@).contains(n) && !s.contains(n) ==> {
                    &&& n != name@ ==> forall|c: Seq<char>|
                        children_of(cs@, n).contains(c) ==> name_set(exported@).contains(c)
                    &&& reaches(cs@, s, name@, n)
                },
        decreases kids.len() - k,
    {
        let ghost current = exported@;
        let ghost sb = name_set(current);
        proof {
            assert(texts(kids@)[k as int] == kids@[k as int]@);
            assert(children_of(cs@, name@).contains(kids@[k as int]@));
            lemma_unmarked_decreases(cs@, name@, s, kids@[k as int]@, sb);
        }
        let kid: &str = kids[k].as_str();
        exported = mark_from(exported, cs, kid);
        proof {
            let sa = name_set(exported@);
            assert(texts(exported@).subrange(0, current.len() as int) =~= texts(current));
            assert(sb.subset_of(sa)) by {
                assert forall|x: Seq<char>| sb.contains(x) implies sa.contains(x) by {
                    let i = choose|i: int| 0 <= i < texts(current).len() && texts(current)[i] == x;
                    assert(texts(exported@)[i] == x);
                }
            }
            assert(exported@.subrange(0, e0.len() as int) =~= e0) by {
                assert forall|i: int| 0 <= i < e0.len() implies exported@[i] == e0[i] by {
                    assert(exported@.subrange(0, current.len() as int)[i] == current[i]);
                    assert(current.subrange(0, e0.len() as int)[i] == e0[i]);
                }
            }
            assert forall|j: int| 0 <= j < k + 1 implies sa.contains(#[trigger] kids@[j]@) by {
                if j < k {
                    assert(sb.contains(kids@[j]@));
                }
            }
            assert forall|n: Seq<char>| #![trigger sa.contains(n)] sa.contains(n) && !s.contains(
                n,
            ) implies {
                &&& n != name@ ==> forall|c: Seq<char>|
                    children_of(cs@, n).contains(c) ==> sa.contains(c)
                &&& reaches(cs@, s, name@, n)
            } by {
                if sb.contains(n) {
                    assert(reaches(cs@, s, name@, n));
                } else {
                    lemma_chain_extend(cs@, s, sb, name@, kids@[k as int]@, n);
                }
            }
        }
        k += 1;
    }
    proof {
        let sf = name_set(exported@);
        assert forall|c: Seq<char>| children_of(cs@, name@).contains(c) implies sf.contains(c) by {
            let j = choose|j: int| 0 <= j < texts(kids@).len() && texts(kids@)[j] == c;
            assert(kids@[j]@ == c);
        }
    }
    exported
}

impl Registrations {
    /// Marks `module_name` exported, and with it every module nested in it
    /// that is not exported yet (see [`marked`]).
    pub fn mark_module_exported(&mut self, module_name: &str)
        ensures
            name_set(final(self).exported_module_names@) == marked(
                old(self).module_children@,
                name_set(old(self).exported_module_names@),
                module_name@,
            ),
            final(self).table_bindings == old(self).table_bindings,
            final(self).local_module_names == old(self).local_module_names,
            final(self).module_children == old(self).module_children,
    {
        let ghost s = name_set(self.exported_module_names@);
        let ghost cs = self.module_children@;
        let mut exported: Vec<String> = Vec::new();
        std::mem::swap(&mut exported, &mut self.exported_module_names);
        self.exported_module_names = mark_from(exported, &self.module_children, module_name);
        proof {
            let sf = name_set(self.exported_module_names@);
            let m = marked(cs, s, module_name@);
            assert(s.subset_of(sf)) by {
                let e0 = old(self).exported_module_names@;
                assert forall|x: Seq<char>| s.contains(x) implies sf.contains(x) by {
                    let i = choose|i: int| 0 <= i < texts(e0).len() && texts(e0)[i] == x;
                    assert(self.exported_module_names@.subrange(0, e0.len() as int)[i] == e0[i]);
                    assert(texts(self.exported_module_names@)[i] == x);
                }
            }
            assert forall|n: Seq<char>| sf.contains(n) implies m.contains(n) by {
                if !s.contains(n) {
                    assert(reaches(cs, s, module_name@, n));
                }
            }
            assert forall|n: Seq<char>| m.contains(n) implies sf.contains(n) by {
                if !s.contains(n) {
                    assert(reaches(cs, s, module_name@, n));
                    let p = choose|p: Seq<Seq<char>>|
                        #[trigger] is_chain(cs, s, p) && p[0] == module_name@ && p.last() == n;
                    // every module of the chain gets marked
                    assert forall|i: int| 0 <= i < p.len() implies sf.contains(#[trigger] p[i]) by {
                        lemma_chain_marked(cs, s, sf, p, i);
                    }
                    assert(sf.contains(p[p.len() - 1]));
                }
            }
            assert(sf =~= m);
        }
    }
}

proof fn lemma_chain_marked(
    cs: Seq<(String, Vec<String>)>,
    s: Set<Seq<char>>,
    sf: Set<Seq<char>>,
    p: Seq<Seq<char>>,
    i: int,
)
    requires
        is_chain(cs, s, p),
        sf.contains(p[0]),
        forall|n: Seq<char>|
            #![trigger sf.contains(n)]
            sf.contains(n) && !s.contains(n) ==> forall|c: Seq<char>|
                children_of(cs, n).contains(c) ==> sf.contains(c),
        0 <= i < p.len(),
    ensures
        sf.contains(p[i]),
    decreases i,
{
    if i > 0 {
        lemma_chain_marked(cs, s, sf, p, i - 1);
        assert(nested_at(cs, p, i - 1));
        assert(!s.contains(p[i - 1]));
    }
}

fn insert_name(names: &mut Vec<String>, n: &str)
    ensures
        name_set(final(names)@) == name_set(old(names)@).insert(n@),
        final(names)@.len() >= old(names)@.len(),
{
    if !names_contain(names, n) {
        let ghost before = names@;
        names.push(owned(n));
        proof {
            assert(texts(names@) =~= texts(before).push(n@));
            texts(before).lemma_push_to_set_commute(n@);
        }
    } else {
        assert(name_set(names@) =~= name_set(names@).insert(n@));
    }
}

/// `ns` and `na` are `os` and `oa` after the table bound to module `idx`
/// was exported as `exported`: the module takes that name, the name is
/// bound to it, it counts as a local module and is marked exported.
pub open spec fn binding_renamed(
    os: Registrations,
    ns: Registrations,
    oa: LuaApi,
    na: LuaApi,
    idx: int,
    exported: Seq<char>,
) -> bool {
    &&& na.modules@.len() == oa.modules@.len()
    &&& na.modules@[idx].name@ == exported
    &&& na.modules@[idx].doc == oa.modules@[idx].doc
    &&& na.modules@[idx].functions == oa.modules@[idx].functions
    &&& na.modules@[idx].fields == oa.modules@[idx].fields
    &&& forall|i: int| 0 <= i < oa.modules@.len() && i != idx ==> #[trigger] na.modules@[i] == oa.modules@[i]
    &&& binding_of(ns.table_bindings@, exported, ns.table_bindings@.len() as int) == Some(idx as usize)
    &&& forall|n: Seq<char>|
        n != exported ==> #[trigger] binding_of(ns.table_bindings@, n, ns.table_bindings@.len() as int)
            == binding_of(os.table_bindings@, n, os.table_bindings@.len() as int)
    &&& name_set(ns.local_module_names@) == name_set(os.local_module_names@).insert(exported)
    &&& name_set(ns.exported_module_names@) == marked(os.module_children@, name_set(os.exported_module_names@), exported)
    &&& ns.module_children == os.module_children
}

/// `ns` and `na` are `os` and `oa` after a module that a registration
/// exports was extracted: it is added to the API (see
/// [`upsert_extracted_module`]), counts as a local module and is marked
/// exported.
pub open spec fn module_recorded(
    os: Registrations,
    ns: Registrations,
    oa: LuaApi,
    na: LuaApi,
    extracted: ExtractedModule,
) -> bool {
    &&& module_views(na.modules@) == module_upserted(
        modules_upserted(module_views(oa.modules@), module_views(extracted.nested_modules@)),
        extracted.module@,
    )
    &&& ns.table_bindings == os.table_bindings
    &&& ns.module_children == os.module_children
    &&& name_set(ns.local_module_names@) == name_set(os.local_module_names@).insert(extracted.module.name@)
    &&& name_set(ns.exported_module_names@) == marked(
        os.module_children@,
        name_set(os.exported_module_names@),
        extracted.module.name@,
    )
}

/// `n` is `o` after recording that `child` is nested in `parent`: the
/// child is appended to the parent's children, and marked exported when
/// the parent is exported.
pub open spec fn child_recorded(o: Registrations, n: Registrations, parent: Seq<char>, child: Seq<char>) -> bool {
    &&& n.table_bindings == o.table_bindings
    &&& children_of(n.module_children@, parent) == children_of(o.module_children@, parent).push(child)
    &&& forall|m: Seq<char>|
        m != parent ==> #[trigger] children_of(n.module_children@, m) == children_of(o.module_children@, m)
    &&& name_set(o.exported_module_names@).contains(parent) ==> name_set(n.exported_module_names@)
        == marked(n.module_children@, name_set(o.exported_module_names@), child)
    &&& !name_set(o.exported_module_names@).contains(parent) ==> n.exported_module_names
        == o.exported_module_names
}

/// The module that a table named `name` refers to: the one it is bound
/// to, else the first module of that name.
pub open spec fn resolved_module(bs: Seq<(String, usize)>, api: LuaApi, name: Seq<char>) -> Option<int> {
    match binding_of(bs, name, bs.len() as int) {
        Some(i) => Some(i as int),
        None => module_index(module_views(api.modules@), name, 0),
    }
}

impl Registrations {
    /// The index of the module that a table named `module_name` refers to
    /// (see [`resolved_module`]).
    pub fn resolve_module_index(&self, api: &LuaApi, module_name: &str) -> (r: Option<usize>)
        ensures
            match r {
                Some(i) => resolved_module(self.table_bindings@, *api, module_name@) == Some(i as int),
                None => resolved_module(self.table_bindings@, *api, module_name@) is None,
            },
    {
        if let Some(i) = lookup_binding(&self.table_bindings, module_name) {
            return Some(i);
        }
        let ghost v = module_views(api.modules@);
        proof {
            lemma_module_index(v, module_name@, 0);
        }
        let mut i: usize = 0;
        while i < api.modules.len()
            invariant
                v == module_views(api.modules@),
                i <= api.modules.len(),
                module_index(v, module_name@, 0) == module_index(v, module_name@, i as int),
                binding_of(self.table_bindings@, module_name@, self.table_bindings@.len() as int) is None,
            decreases api.modules.len() - i,
        {
            assert(v[i as int] == api.modules@[i as int]@);
            if str_eq(api.modules[i].name.as_str(), module_name) {
                return Some(i);
            }
            i += 1;
        }
        None
    }

    /// Records that the table bound to `binding_name` is exported under
    /// `exported_name`: its module takes that name, the name is bound to
    /// it, it counts as a local module and is marked exported. False, and
    /// nothing changes, when no table of that name is bound.
    pub fn rename_registered_module_binding(
        &mut self,
        api: &mut LuaApi,
        binding_name: &str,
        exported_name: &str,
    ) -> (r: bool)
        requires
            bindings_valid(old(self).table_bindings@, *old(api)),
        ensures
            bindings_valid(final(self).table_bindings@, *final(api)),
            same_but_modules(*old(api), *final(api)),
            final(self).module_children == old(self).module_children,
            match binding_of(old(self).table_bindings@, binding_name@, old(self).table_bindings@.len() as int) {
                None => !r && *final(self) == *old(self) && *final(api) == *old(api),
                Some(idx) => r && binding_renamed(*old(self), *final(self), *old(api), *final(api), idx as int, exported_name@),
            },
    {
        proof {
            lemma_binding_bound(self.table_bindings@, *api, binding_name@, self.table_bindings@.len() as int);
        }
        let idx = match lookup_binding(&self.table_bindings, binding_name) {
            Some(i) => i,
            None => return false,
        };
        api.modules[idx].name = owned(exported_name);
        let ghost old_bs = self.table_bindings@;
        self.table_bindings.push((owned(exported_name), idx));
        proof {
            let nb = self.table_bindings@;
            assert forall|m: Seq<char>| m != exported_name@ implies #[trigger] binding_of(
                nb,
                m,
                nb.len() as int,
            ) == binding_of(old_bs, m, old_bs.len() as int) by {
                lemma_binding_prefix(old_bs, nb, m, old_bs.len() as int);
            }
            assert forall|i: int| 0 <= i < nb.len() implies (#[trigger] nb[i]).1 < api.modules@.len() by {
                if i < old_bs.len() {
                    assert(nb[i] == old_bs[i]);
                }
            }
        }
        insert_name(&mut self.local_module_names, exported_name);
        self.mark_module_exported(exported_name);
        true
    }

    /// Records a module extracted from a global registration: it is added
    /// to the API (see [`upsert_extracted_module`]), counts as a local
    /// module and is marked exported.
    pub fn record_exported_registration_module(&mut self, api: &mut LuaApi, extracted: ExtractedModule)
        requires
            bindings_valid(old(self).table_bindings@, *old(api)),
        ensures
            bindings_valid(final(self).table_bindings@, *final(api)),
            same_but_modules(*old(api), *final(api)),
            module_recorded(*old(self), *final(self), *old(api), *final(api), extracted),
    {
        let ghost n0 = api.modules@.len();
        let ghost nested = module_views(extracted.nested_modules@);
        let ghost root = extracted.module@;
        let module_name = upsert_extracted_module(api, extracted);
        proof {
            lemma_upserted_len(
                modules_upserted(
                    module_views(old(api).modules@),
                    nested,
                ),
                root,
            );
            lemma_all_upserted_len(module_views(old(api).modules@), nested);
            assert(api.modules@.len() >= n0);
        }
        insert_name(&mut self.local_module_names, module_name.as_str());
        self.mark_module_exported(module_name.as_str());
    }

    /// Records that `child` is nested in `parent`, marking it exported when
    /// `parent` already is.
    pub fn record_child_module(&mut self, parent: &str, child: &str)
        ensures
            final(self).local_module_names == old(self).local_module_names,
            child_recorded(*old(self), *final(self), parent@, child@),
    {
        let ghost cs = self.module_children@;
        proof {
            lemma_children_entry(cs, parent@, 0);
        }
        let at = find_children_entry(&self.module_children, parent);
        match at {
            Some(k) => {
                self.module_children[k].1.push(owned(child));
                proof {
                    let ncs = self.module_children@;
                    assert forall|n: Seq<char>| #[trigger] children_entry(ncs, n, 0) == children_entry(cs, n, 0) by {
                        lemma_entry_same_keys(cs, ncs, n, 0);
                    }
                    assert(texts(ncs[k as int].1@) =~= texts(cs[k as int].1@).push(child@));
                    assert forall|n: Seq<char>| n != parent@ implies #[trigger] children_of(ncs, n)
                        == children_of(cs, n) by {
                        lemma_children_entry(cs, n, 0);
                        if let Some(j) = children_entry(cs, n, 0) {
                            assert(j != k);
                            assert(ncs[j] == cs[j]);
                        }
                    }
                }
            },
            None => {
                let mut list: Vec<String> = Vec::new();
                list.push(owned(child));
                self.module_children.push((owned(parent), list));
                proof {
                    let ncs = self.module_children@;
                    assert forall|n: Seq<char>| n != parent@ implies #[trigger] children_of(ncs, n)
                        == children_of(cs, n) by {
                        lemma_entry_pushed(cs, ncs, n, 0);
                        lemma_children_entry(cs, n, 0);
                        if let Some(j) = children_entry(cs, n, 0) {
                            assert(ncs[j] == cs[j]);
                        }
                    }
                    lemma_entry_last(cs, ncs, parent@, 0);
                    assert(texts(ncs[cs.len() as int].1@) =~= seq![child@]);
                    assert(children_of(cs, parent@) =~= Seq::<Seq<char>>::empty());
                    assert(Seq::<Seq<char>>::empty().push(child@) =~= seq![child@]);
                }
            },
        }
        if names_contain(&self.exported_module_names, parent) {
            self.mark_module_exported(child);
        }
    }
}

/// The module index bound last to `name`.
fn lookup_binding(bs: &Vec<(String, usize)>, name: &str) -> (r: Option<usize>)
    ensures
        r == binding_of(bs@, name@, bs@.len() as int),
{
    let mut n: usize = bs.len();
    while n > 0
        invariant
            n <= bs@.len(),
            binding_of(bs@, name@, bs@.len() as int) == binding_of(bs@, name@, n as int),
        decreases n,
    {
        if str_eq(bs[n - 1].0.as_str(), name) {
            return Some(bs[n - 1].1);
        }
        n -= 1;
    }
    None
}

/// The position of the children of `name`.
fn find_children_entry(cs: &Vec<(String, Vec<String>)>, name: &str) -> (r: Option<usize>)
    ensures
        match r {
            Some(k) => children_entry(cs@, name@, 0) == Some(k as int),
            None => children_entry(cs@, name@, 0) is None,
        },
{
    proof {
        lemma_children_entry(cs@, name@, 0);
    }
    let mut i: usize = 0;
    while i < cs.len()
        invariant
            i <= cs.len(),
            children_entry(cs@, name@, 0) == children_entry(cs@, name@, i as int),
        decreases cs.len() - i,
    {
        if str_eq(cs[i].0.as_str(), name) {
            return Some(i);
        }
        i += 1;
    }
    None
}

proof fn lemma_binding_found(bs: Seq<(String, usize)>, name: Seq<char>, n: int)
    ensures
        n <= bs.len() ==> (binding_of(bs, name, n) matches Some(i) ==> exists|j: int|
            0 <= j < n && #[trigger] bs[j].1 == i),
    decreases n,
{
    if 0 < n <= bs.len() && bs[n - 1].0@ != name {
        lemma_binding_found(bs, name, n - 1);
    }
}

proof fn lemma_binding_bound(bs: Seq<(String, usize)>, api: LuaApi, name: Seq<char>, n: int)
    requires
        bindings_valid(bs, api),
        n <= bs.len(),
    ensures
        binding_of(bs, name, n) matches Some(i) ==> i < api.modules@.len(),
{
    lemma_binding_found(bs, name, n);
    if let Some(i) = binding_of(bs, name, n) {
        let j = choose|j: int| 0 <= j < n && #[trigger] bs[j].1 == i;
        assert(bs[j].1 < api.modules@.len());
    }
}

/// The index a new table binding of `name` takes: the module the name
/// resolves to, else one past the last module.
pub open spec fn bound_index(bs: Seq<(String, usize)>, api: LuaApi, name: Seq<char>) -> int {
    match resolved_module(bs, api, name) {
        Some(i) => i,
        None => api.modules@.len() as int,
    }
}

/// `n` is `o` with one more binding, of `name` to `idx`.
pub open spec fn bound(o: Seq<(String, usize)>, n: Seq<(String, usize)>, name: Seq<char>, idx: int) -> bool {
    &&& n.len() == o.len() + 1
    &&& n.subrange(0, o.len() as int) == o
    &&& n.last().0@ == name
    &&& n.last().1 as int == idx
}

/// After an upsert, a module has the upserted module's name.
proof fn lemma_upserted_found(ms: Seq<ModuleView>, m: ModuleView)
    ensures
        module_index(module_upserted(ms, m), m.name, 0) is Some,
{
    let r = module_upserted(ms, m);
    lemma_module_index(ms, m.name, 0);
    lemma_module_index(r, m.name, 0);
    match module_index(ms, m.name, 0) {
        Some(k) => {
            assert(r[k].name == m.name);
        },
        None => {
            assert(r[ms.len() as int].name == m.name);
        },
    }
}

/// Where the name resolves after an upsert of a module of that name, it
/// resolves to a module of the API.
proof fn lemma_bound_index_valid(bs: Seq<(String, usize)>, api: LuaApi, name: Seq<char>)
    requires
        bindings_valid(bs, api),
        module_index(module_views(api.modules@), name, 0) is Some,
    ensures
        0 <= bound_index(bs, api, name) < api.modules@.len(),
{
    lemma_binding_bound(bs, api, name, bs.len() as int);
    lemma_module_index(module_views(api.modules@), name, 0);
}

/// Bindings stay valid when the API only gains modules.
proof fn lemma_bindings_grow(bs: Seq<(String, usize)>, a: LuaApi, b: LuaApi)
    requires
        bindings_valid(bs, a),
        b.modules@.len() >= a.modules@.len(),
    ensures
        bindings_valid(bs, b),
{
}

impl Registrations {
    /// Nothing registered yet.
    pub fn new() -> (r: Self)
        ensures
            r.table_bindings@.len() == 0,
            r.local_module_names@.len() == 0,
            r.exported_module_names@.len() == 0,
            r.module_children@.len() == 0,
    {
        Registrations {
            table_bindings: Vec::new(),
            local_module_names: Vec::new(),
            exported_module_names: Vec::new(),
            module_children: Vec::new(),
        }
    }

    /// Records a local table bound to `binding` and made from `extracted`:
    /// the module is added to the API (see [`upsert_extracted_module`]),
    /// `binding` counts as a local module, and is bound to the module it
    /// then resolves to.
    pub fn bind_table_module(&mut self, api: &mut LuaApi, binding: &str, extracted: ExtractedModule)
        requires
            bindings_valid(old(self).table_bindings@, *old(api)),
        ensures
            same_but_modules(*old(api), *final(api)),
            module_views(final(api).modules@) == module_upserted(
                modules_upserted(
                    module_views(old(api).modules@),
                    module_views(extracted.nested_modules@),
                ),
                extracted.module@,
            ),
            name_set(final(self).local_module_names@) == name_set(old(self).local_module_names@).insert(
                binding@,
            ),
            bound(
                old(self).table_bindings@,
                final(self).table_bindings@,
                binding@,
                bound_index(old(self).table_bindings@, *final(api), binding@),
            ),
            final(self).exported_module_names == old(self).exported_module_names,
            final(self).module_children == old(self).module_children,
            extracted.module.name@ == binding@ ==> bindings_valid(final(self).table_bindings@, *final(api)),
    {
        let ghost nested = module_views(extracted.nested_modules@);
        let ghost root = extracted.module@;
        let ghost o = *api;
        upsert_extracted_module(api, extracted);
        proof {
            lemma_upserted_len(modules_upserted(module_views(o.modules@), nested), root);
            lemma_all_upserted_len(module_views(o.modules@), nested);
            lemma_bindings_grow(self.table_bindings@, o, *api);
            lemma_upserted_found(modules_upserted(module_views(o.modules@), nested), root);
        }
        insert_name(&mut self.local_module_names, binding);
        self.bind(api, binding, binding);
    }

    /// Records a local table bound to `binding` that holds the module
    /// `module_name` made elsewhere: an empty module of that name is added
    /// to the API unless there is one, the name counts as a local module,
    /// `binding` is bound to the module the name resolves to, and the
    /// module is marked exported.
    pub fn bind_required_module(&mut self, api: &mut LuaApi, binding: &str, module_name: &str)
        requires
            bindings_valid(old(self).table_bindings@, *old(api)),
        ensures
            same_but_modules(*old(api), *final(api)),
            module_views(final(api).modules@) == module_upserted(
                module_views(old(api).modules@),
                ModuleView { name: module_name@, doc: None, functions: Seq::empty(), fields: Seq::empty() },
            ),
            name_set(final(self).local_module_names@) == name_set(old(self).local_module_names@).insert(
                module_name@,
            ),
            bound(
                old(self).table_bindings@,
                final(self).table_bindings@,
                binding@,
                bound_index(old(self).table_bindings@, *final(api), module_name@),
            ),
            bindings_valid(final(self).table_bindings@, *final(api)),
            name_set(final(self).exported_module_names@) == marked(
                old(self).module_children@,
                name_set(old(self).exported_module_names@),
                module_name@,
            ),
            final(self).module_children == old(self).module_children,
    {
        let ghost o = *api;
        let extracted = ExtractedModule {
            module: LuaModule {
                name: owned(module_name),
                doc: None,
                functions: Vec::new(),
                fields: Vec::new(),
            },
            nested_modules: Vec::new(),
        };
        let ghost root = extracted.module@;
        proof {
            assert(module_views(extracted.nested_modules@) =~= Seq::<ModuleView>::empty());
            assert(root =~= ModuleView { name: module_name@, doc: None, functions: Seq::empty(), fields: Seq::empty() });
        }
        upsert_extracted_module(api, extracted);
        proof {
            let ms = module_views(o.modules@);
            assert(modules_upserted(ms, Seq::<ModuleView>::empty()) == ms);
            lemma_upserted_len(ms, root);
            lemma_bindings_grow(self.table_bindings@, o, *api);
            lemma_upserted_found(ms, root);
        }
        insert_name(&mut self.local_module_names, module_name);
        self.bind(api, binding, module_name);
        self.mark_module_exported(module_name);
    }

    /// Binds `binding` to the module that `target` resolves to, else to one
    /// past the last module.
    fn bind(&mut self, api: &LuaApi, binding: &str, target: &str)
        ensures
            bound(old(self).table_bindings@, final(self).table_bindings@, binding@, bound_index(old(self).table_bindings@, *api, target@)),
            final(self).local_module_names == old(self).local_module_names,
            final(self).exported_module_names == old(self).exported_module_names,
            final(self).module_children == old(self).module_children,
            bindings_valid(old(self).table_bindings@, *api) && module_index(module_views(api.modules@), target@, 0) is Some
                ==> bindings_valid(final(self).table_bindings@, *api),
    {
        let idx = match self.resolve_module_index(api, target) {
            Some(i) => i,
            None => api.modules.len(),
        };
        let ghost bs = self.table_bindings@;
        proof {
            if bindings_valid(bs, *api) && module_index(module_views(api.modules@), target@, 0) is Some {
                lemma_bound_index_valid(bs, *api, target@);
            }
        }
        self.table_bindings.push((owned(binding), idx));
        proof {
            let nb = self.table_bindings@;
            assert(nb.subrange(0, bs.len() as int) =~= bs);
            if bindings_valid(bs, *api) && module_index(module_views(api.modules@), target@, 0) is Some {
                assert forall|i: int| 0 <= i < nb.len() implies (#[trigger] nb[i]).1 < api.modules@.len() by {
                    if i < bs.len() {
                        assert(nb[i] == bs[i]);
                    }
                }
            }
        }
    }
}

// ── fields of registered modules ──────────────────────────────────────

/// The first position from `i` on of a field named `name`.
pub open spec fn field_index(fs: Seq<LuaField>, name: Seq<char>, i: int) -> Option<int>
    decreases fs.len() - i,
{
    if i < 0 || i >= fs.len() {
        None
    } else if fs[i].name@ == name {
        Some(i)
    } else {
        field_index(fs, name, i + 1)
    }
}

proof fn lemma_field_index(fs: Seq<LuaField>, name: Seq<char>, i: int)
    requires
        0 <= i,
    ensures
        field_index(fs, name, i) matches Some(k) ==> i <= k < fs.len() && fs[k].name@ == name,
    decreases fs.len() - i,
{
    if i < fs.len() && fs[i].name@ != name {
        lemma_field_index(fs, name, i + 1);
    }
}

/// `n` is `o` with the first field named `name`, if any, made of the
/// class `class`.
pub open spec fn field_retyped(o: Seq<LuaField>, n: Seq<LuaField>, name: Seq<char>, class: Seq<char>) -> bool {
    &&& n.len() == o.len()
    &&& match field_index(o, name, 0) {
        None => n == o,
        Some(k) => {
            &&& forall|j: int| 0 <= j < o.len() && j != k ==> #[trigger] n[j] == o[j]
            &&& n[k].name == o[k].name
            &&& n[k].writable == o[k].writable
            &&& n[k].doc == o[k].doc
            &&& n[k].ty@ == LuaTy::Class(class)
        },
    }
}

/// The modules `ms` with `field` added to module `idx`.
pub open spec fn with_field(ms: Seq<ModuleView>, idx: int, field: LuaField) -> Seq<ModuleView> {
    ms.update(
        idx,
        ModuleView {
            name: ms[idx].name,
            doc: ms[idx].doc,
            functions: ms[idx].functions,
            fields: ms[idx].fields.push(field),
        },
    )
}

/// Makes the first field named `name` a reference to the class `class`.
fn retype_first_field(fields: &mut Vec<LuaField>, name: &str, class: String)
    ensures
        field_retyped(old(fields)@, final(fields)@, name@, class@),
{
    let ghost fs = fields@;
    proof {
        lemma_field_index(fs, name@, 0);
    }
    let mut i: usize = 0;
    while i < fields.len()
        invariant
            fs == fields@,
            fs == old(fields)@,
            i <= fs.len(),
            field_index(fs, name@, 0) == field_index(fs, name@, i as int),
        decreases fields.len() - i,
    {
        if str_eq(fields[i].name.as_str(), name) {
            fields[i].ty = LuaType::Class(class);
            proof {
                assert(field_index(fs, name@, 0) == Some(i as int));
                assert forall|j: int| 0 <= j < fs.len() && j != i implies #[trigger] fields@[j] == fs[j] by {}
            }
            return;
        }
        i += 1;
    }
}

impl Registrations {
    /// Records the field `field` of module `idx`, a table that a module
    /// registration sets; `child` is the module that the field's value
    /// makes, if it makes one. Such a module is added to the API (see
    /// [`upsert_extracted_module`]), counts as a local module, is recorded
    /// as nested in module `idx` (see [`child_recorded`]), and the first
    /// field of that name becomes a reference to it.
    pub fn register_module_field(
        &mut self,
        api: &mut LuaApi,
        idx: usize,
        field: LuaField,
        child: Option<ExtractedModule>,
    )
        requires
            idx < old(api).modules@.len(),
            bindings_valid(old(self).table_bindings@, *old(api)),
        ensures
            same_but_modules(*old(api), *final(api)),
            bindings_valid(final(self).table_bindings@, *final(api)),
            match child {
                None => {
                    &&& module_views(final(api).modules@) == with_field(
                        module_views(old(api).modules@),
                        idx as int,
                        field,
                    )
                    &&& *final(self) == *old(self)
                },
                Some(c) => {
                    let grown = module_upserted(
                        modules_upserted(
                            with_field(module_views(old(api).modules@), idx as int, field),
                            module_views(c.nested_modules@),
                        ),
                        c.module@,
                    );
                    let now = module_views(final(api).modules@);
                    &&& now.len() == grown.len()
                    &&& forall|i: int| 0 <= i < grown.len() && i != idx ==> #[trigger] now[i] == grown[i]
                    &&& now[idx as int].name == grown[idx as int].name
                    &&& now[idx as int].doc == grown[idx as int].doc
                    &&& now[idx as int].functions == grown[idx as int].functions
                    &&& field_retyped(
                        grown[idx as int].fields,
                        now[idx as int].fields,
                        field.name@,
                        c.module.name@,
                    )
                    &&& name_set(final(self).local_module_names@) == name_set(
                        old(self).local_module_names@,
                    ).insert(c.module.name@)
                    &&& child_recorded(
                        *old(self),
                        *final(self),
                        old(api).modules@[idx as int].name@,
                        c.module.name@,
                    )
                },
            },
    {
        let ghost o = *api;
        let ghost m0 = module_views(api.modules@);
        let parent = owned(api.modules[idx].name.as_str());
        let field_name = owned(field.name.as_str());
        api.modules[idx].fields.push(field);
        proof {
            assert(module_views(api.modules@) =~= with_field(m0, idx as int, field));
            lemma_bindings_grow(self.table_bindings@, o, *api);
        }
        match child {
            None => {},
            Some(c) => {
                let ghost o1 = *api;
                let ghost m1 = module_views(api.modules@);
                let ghost nested = module_views(c.nested_modules@);
                let ghost root = c.module@;
                let child_name = owned(c.module.name.as_str());
                upsert_extracted_module(api, c);
                let ghost m2 = module_views(api.modules@);
                proof {
                    lemma_upserted_len(modules_upserted(m1, nested), root);
                    lemma_all_upserted_len(m1, nested);
                    lemma_bindings_grow(self.table_bindings@, o1, *api);
                }
                insert_name(&mut self.local_module_names, child_name.as_str());
                self.record_child_module(parent.as_str(), child_name.as_str());
                let ghost before = api.modules@;
                retype_first_field(&mut api.modules[idx].fields, field_name.as_str(), child_name);
                proof {
                    let now = module_views(api.modules@);
                    assert forall|i: int| 0 <= i < m2.len() && i != idx implies #[trigger] now[i] == m2[i] by {
                        assert(api.modules@[i] == before[i]);
                    }
                    lemma_bindings_grow(self.table_bindings@, o1, *api);
                }
            },
        }
    }
}

/// `na` is `oa` with `field` added to its global fields.
pub open spec fn global_field_added(oa: LuaApi, na: LuaApi, field: LuaField) -> bool {
    &&& na.classes == oa.classes
    &&& na.enums == oa.enums
    &&& na.modules == oa.modules
    &&& na.global_functions == oa.global_functions
    &&& na.global_fields@ == oa.global_fields@.push(field)
}

impl Registrations {
    /// Records a global registration of `name`. `binding` is the table
    /// binding that the registered value names, if it names one; `module`
    /// the module that the value makes, if it makes one; `field` the global
    /// field to record otherwise. A bound table is exported under `name`
    /// (see [`binding_renamed`]); else a module is recorded (see
    /// [`module_recorded`]); else the field is added.
    pub fn register_global(
        &mut self,
        api: &mut LuaApi,
        name: &str,
        binding: Option<&str>,
        module: Option<ExtractedModule>,
        field: LuaField,
    )
        requires
            bindings_valid(old(self).table_bindings@, *old(api)),
        ensures
            bindings_valid(final(self).table_bindings@, *final(api)),
            match binding {
                Some(b) if binding_of(old(self).table_bindings@, b@, old(self).table_bindings@.len() as int) is Some =>
                    binding_renamed(
                        *old(self),
                        *final(self),
                        *old(api),
                        *final(api),
                        binding_of(old(self).table_bindings@, b@, old(self).table_bindings@.len() as int)->0 as int,
                        name@,
                    ) && same_but_modules(*old(api), *final(api)),
                _ => match module {
                    Some(m) => module_recorded(*old(self), *final(self), *old(api), *final(api), m)
                        && same_but_modules(*old(api), *final(api)),
                    None => global_field_added(*old(api), *final(api), field) && *final(self) == *old(self),
                },
            },
    {
        if let Some(b) = binding {
            if self.rename_registered_module_binding(api, b, name) {
                return;
            }
        }
        match module {
            Some(m) => self.record_exported_registration_module(api, m),
            None => {
                api.global_fields.push(field);
            },
        }
    }
}

proof fn lemma_binding_prefix(
    old_bs: Seq<(String, usize)>,
    nb: Seq<(String, usize)>,
    m: Seq<char>,
    n: int,
)
    requires
        nb.len() == old_bs.len() + 1,
        forall|i: int| 0 <= i < old_bs.len() ==> nb[i] == old_bs[i],
        nb.last().0@ != m,
        n == old_bs.len(),
    ensures
        binding_of(nb, m, nb.len() as int) == binding_of(old_bs, m, n),
{
    lemma_binding_same(old_bs, nb, m, n);
}

proof fn lemma_binding_same(old_bs: Seq<(String, usize)>, nb: Seq<(String, usize)>, m: Seq<char>, n: int)
    requires
        nb.len() >= old_bs.len(),
        forall|i: int| 0 <= i < old_bs.len() ==> nb[i] == old_bs[i],
        0 <= n <= old_bs.len(),
    ensures
        binding_of(nb, m, n) == binding_of(old_bs, m, n),
    decreases n,
{
    if n > 0 {
        lemma_binding_same(old_bs, nb, m, n - 1);
    }
}

proof fn lemma_entry_same_keys(cs: Seq<(String, Vec<String>)>, ncs: Seq<(String, Vec<String>)>, n: Seq<char>, i: int)
    requires
        ncs.len() == cs.len(),
        forall|j: int| 0 <= j < cs.len() ==> (#[trigger] ncs[j]).0 == cs[j].0,
    ensures
        children_entry(ncs, n, i) == children_entry(cs, n, i),
    decreases cs.len() - i,
{
    if 0 <= i < cs.len() {
        assert(ncs[i].0 == cs[i].0);
        lemma_entry_same_keys(cs, ncs, n, i + 1);
    }
}

proof fn lemma_entry_pushed(cs: Seq<(String, Vec<String>)>, ncs: Seq<(String, Vec<String>)>, n: Seq<char>, i: int)
    requires
        ncs.len() == cs.len() + 1,
        forall|j: int| 0 <= j < cs.len() ==> ncs[j] == cs[j],
        ncs.last().0@ != n,
        0 <= i,
    ensures
        children_entry(ncs, n, i) == children_entry(cs, n, i),
    decreases cs.len() - i,
{
    if i < cs.len() {
        assert(ncs[i] == cs[i]);
        if cs[i].0@ != n {
            lemma_entry_pushed(cs, ncs, n, i + 1);
        }
    } else if i == cs.len() {
        assert(ncs[i] == ncs.last());
        assert(children_entry(ncs, n, i + 1) is None);
    }
}

proof fn lemma_entry_last(cs: Seq<(String, Vec<String>)>, ncs: Seq<(String, Vec<String>)>, n: Seq<char>, i: int)
    requires
        ncs.len() == cs.len() + 1,
        forall|j: int| 0 <= j < cs.len() ==> ncs[j] == cs[j],
        children_entry(cs, n, i) is None,
        ncs.last().0@ == n,
        0 <= i <= cs.len(),
    ensures
        children_entry(ncs, n, i) == Some(cs.len() as int),
    decreases cs.len() - i,
{
    if i < cs.len() {
        lemma_entry_last(cs, ncs, n, i + 1);
    }
}

} // verus!
