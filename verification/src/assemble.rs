//! Assembling the extracted API: fields, modules merged by name, helper
//! tables and unexported modules left out, duplicates removed and the
//! whole put in name order.
use vstd::prelude::*;

use crate::refine::name_view;
use crate::text::{owned, str_eq};
use crate::{
    ty_eq, LuaApi, LuaClass, LuaEnum, LuaField, LuaFunction, LuaMethod, LuaModule, LuaParam, LuaReturn, LuaTy, LuaType,
    MethodKind,
};

verus! {

broadcast use vstd::std_specs::vec::group_vec_axioms;

// ── fields ────────────────────────────────────────────────────────────

/// A field that Lua code may assign.
pub fn writable_field(name: String, ty: LuaType) -> (r: LuaField)
    ensures
        r.name == name,
        r.ty == ty,
        r.writable,
        r.doc is None,
{
    LuaField { name, ty, writable: true, doc: None }
}

/// A field that Lua code may only read.
pub fn readonly_field(name: String, ty: LuaType) -> (r: LuaField)
    ensures
        r.name == name,
        r.ty == ty,
        !r.writable,
        r.doc is None,
{
    LuaField { name, ty, writable: false, doc: None }
}

// ── helper tables ─────────────────────────────────────────────────────

/// A module that only wraps internals: a name of one or two lowercase
/// ASCII letters, no functions, and only fields whose names start with `_`.
pub open spec fn synthetic_helper(m: LuaModule) -> bool {
    synthetic_parts(m.name@, m.functions@, m.fields@)
}

pub open spec fn synthetic_parts(n: Seq<char>, functions: Seq<LuaFunction>, fields: Seq<LuaField>) -> bool {
    &&& 0 < n.len() <= 2
    &&& forall|i: int| 0 <= i < n.len() ==> 'a' <= #[trigger] n[i] <= 'z'
    &&& functions.len() == 0
    &&& forall|j: int|
        0 <= j < fields.len() ==> (#[trigger] fields[j]).name@.len() > 0 && fields[j].name@[0]
            == '_'
}

pub fn is_synthetic_helper_module(module: &LuaModule) -> (r: bool)
    ensures
        r == synthetic_helper(*module),
{
    let name = module.name.as_str();
    let n = name.unicode_len();
    if n == 0 || n > 2 {
        return false;
    }
    let mut i: usize = 0;
    while i < n
        invariant
            n == name@.len(),
            name@ == module.name@,
            i <= n,
            forall|k: int| 0 <= k < i ==> 'a' <= #[trigger] name@[k] <= 'z',
        decreases n - i,
    {
        let c = name.get_char(i);
        if !('a' <= c && c <= 'z') {
            return false;
        }
        i += 1;
    }
    if module.functions.len() != 0 {
        return false;
    }
    let mut j: usize = 0;
    while j < module.fields.len()
        invariant
            j <= module.fields@.len(),
            forall|k: int|
                0 <= k < j ==> (#[trigger] module.fields@[k]).name@.len() > 0
                    && module.fields@[k].name@[0] == '_',
        decreases module.fields.len() - j,
    {
        let f = module.fields[j].name.as_str();
        if !(f.unicode_len() > 0 && f.get_char(0) == '_') {
            return false;
        }
        j += 1;
    }
    true
}

// ── modules merged by name ────────────────────────────────────────────

/// What a module holds, with its texts as character sequences.
pub struct ModuleView {
    pub name: Seq<char>,
    pub doc: Option<Seq<char>>,
    pub functions: Seq<LuaFunction>,
    pub fields: Seq<LuaField>,
}

impl View for LuaModule {
    type V = ModuleView;

    open spec fn view(&self) -> ModuleView {
        ModuleView {
            name: self.name@,
            doc: name_view(self.doc),
            functions: self.functions@,
            fields: self.fields@,
        }
    }
}

pub open spec fn module_views(ms: Seq<LuaModule>) -> Seq<ModuleView> {
    Seq::new(ms.len(), |i: int| ms[i]@)
}

/// The first position from `i` on of a module named `name`.
pub open spec fn module_index(ms: Seq<ModuleView>, name: Seq<char>, i: int) -> Option<int>
    decreases ms.len() - i,
{
    if i < 0 || i >= ms.len() {
        None
    } else if ms[i].name == name {
        Some(i)
    } else {
        module_index(ms, name, i + 1)
    }
}

pub proof fn lemma_module_index(ms: Seq<ModuleView>, name: Seq<char>, i: int)
    requires
        0 <= i,
    ensures
        module_index(ms, name, i) matches Some(k) ==> i <= k < ms.len() && ms[k].name == name
            && forall|j: int| i <= j < k ==> ms[j].name != name,
        module_index(ms, name, i) is None ==> forall|j: int| i <= j < ms.len() ==> ms[j].name != name,
    decreases ms.len() - i,
{
    if i < ms.len() && ms[i].name != name {
        lemma_module_index(ms, name, i + 1);
    }
}

/// `m` merged into the module of the same name: its functions and fields
/// appended, its doc taken where the module had none; `m` appended where
/// no module has its name.
pub open spec fn module_upserted(ms: Seq<ModuleView>, m: ModuleView) -> Seq<ModuleView> {
    match module_index(ms, m.name, 0) {
        Some(k) => ms.update(
            k,
            ModuleView {
                name: ms[k].name,
                doc: if ms[k].doc is None {
                    m.doc
                } else {
                    ms[k].doc
                },
                functions: ms[k].functions + m.functions,
                fields: ms[k].fields + m.fields,
            },
        ),
        None => ms.push(m),
    }
}

/// The other parts of two APIs are the same.
pub open spec fn same_but_modules(a: LuaApi, b: LuaApi) -> bool {
    &&& a.classes == b.classes
    &&& a.enums == b.enums
    &&& a.global_fields == b.global_fields
    &&& a.global_functions == b.global_functions
}

fn find_module(ms: &Vec<LuaModule>, name: &str) -> (r: Option<usize>)
    ensures
        match r {
            Some(k) => module_index(module_views(ms@), name@, 0) == Some(k as int),
            None => module_index(module_views(ms@), name@, 0) is None,
        },
{
    let ghost v = module_views(ms@);
    proof {
        lemma_module_index(v, name@, 0);
    }
    let mut i: usize = 0;
    while i < ms.len()
        invariant
            v == module_views(ms@),
            i <= ms.len(),
            forall|j: int| 0 <= j < i ==> v[j].name != name@,
            module_index(v, name@, 0) == module_index(v, name@, i as int),
        decreases ms.len() - i,
    {
        assert(v[i as int] == ms@[i as int]@);
        if str_eq(ms[i].name.as_str(), name) {
            return Some(i);
        }
        i += 1;
    }
    None
}

/// Adds `module` to the API, merging it into a module of the same name
/// (see [`module_upserted`]).
pub fn upsert_module(api: &mut LuaApi, module: LuaModule)
    ensures
        same_but_modules(*old(api), *final(api)),
        module_views(final(api).modules@) == module_upserted(
            module_views(old(api).modules@),
            module@,
        ),
{
    let ghost before = module_views(api.modules@);
    proof {
        lemma_module_index(before, module.name@, 0);
    }
    match find_module(&api.modules, module.name.as_str()) {
        Some(k) => {
            let LuaModule { name: _, doc, functions, fields } = module;
            let mut functions = functions;
            let mut fields = fields;
            let existing = &mut api.modules[k];
            existing.functions.append(&mut functions);
            existing.fields.append(&mut fields);
            if existing.doc.is_none() {
                existing.doc = doc;
            }
            assert(module_views(api.modules@) =~= module_upserted(before, module@));
        },
        None => {
            api.modules.push(module);
            assert(module_views(api.modules@) =~= before.push(module@));
        },
    }
}

/// A module read from a registration, with the modules nested in it.
pub struct ExtractedModule {
    pub module: LuaModule,
    pub nested_modules: Vec<LuaModule>,
}

/// `ms` after upserting each of `ns` in order.
pub open spec fn modules_upserted(ms: Seq<ModuleView>, ns: Seq<ModuleView>) -> Seq<ModuleView>
    decreases ns.len(),
{
    if ns.len() == 0 {
        ms
    } else {
        module_upserted(modules_upserted(ms, ns.drop_last()), ns.last())
    }
}

/// Upserting a module loses none.
pub proof fn lemma_upserted_len(ms: Seq<ModuleView>, m: ModuleView)
    ensures
        module_upserted(ms, m).len() >= ms.len(),
{
    lemma_module_index(ms, m.name, 0);
}

/// Upserting modules loses none.
pub proof fn lemma_all_upserted_len(ms: Seq<ModuleView>, ns: Seq<ModuleView>)
    ensures
        modules_upserted(ms, ns).len() >= ms.len(),
    decreases ns.len(),
{
    if ns.len() > 0 {
        lemma_all_upserted_len(ms, ns.drop_last());
        lemma_upserted_len(modules_upserted(ms, ns.drop_last()), ns.last());
    }
}

/// Adds an extracted module to the API, its nested modules first, and
/// gives the name of its root module.
pub fn upsert_extracted_module(api: &mut LuaApi, extracted: ExtractedModule) -> (r: String)
    ensures
        r@ == extracted.module.name@,
        same_but_modules(*old(api), *final(api)),
        module_views(final(api).modules@) == module_upserted(
            modules_upserted(
                module_views(old(api).modules@),
                module_views(extracted.nested_modules@),
            ),
            extracted.module@,
        ),
{
    let root_name = owned(extracted.module.name.as_str());
    let ExtractedModule { module, nested_modules } = extracted;
    let ghost start = module_views(api.modules@);
    let ghost ns = module_views(nested_modules@);
    let ghost nm = nested_modules@;
    let ghost o = *api;
    let mut rest = nested_modules;
    let mut i: usize = 0;
    let n = rest.len();
    while rest.len() > 0
        invariant
            same_but_modules(o, *api),
            i + rest@.len() == n,
            n == ns.len(),
            ns == module_views(nm),
            rest@ == nm.subrange(i as int, n as int),
            module_views(api.modules@) == modules_upserted(start, ns.take(i as int)),
        decreases rest.len(),
    {
        let m = rest.remove(0);
        assert(m == nm[i as int]);
        assert(m@ == ns[i as int]);
        upsert_module(api, m);
        assert(ns.take(i + 1).drop_last() =~= ns.take(i as int));
        assert(rest@ =~= nm.subrange(i + 1, n as int));
        i += 1;
    }
    assert(ns.take(n as int) =~= ns);
    upsert_module(api, module);
    root_name
}

/// What a value registered on a module table turned out to be.
pub enum ExportedValue {
    Function(LuaFunction),
    NestedModule(ExtractedModule),
    Field(LuaType),
}

/// `n` is `o` after recording `value` under `name` (see
/// [`push_exported_value`]).
pub open spec fn pushed_exported(o: LuaModule, n: LuaModule, name: String, value: ExportedValue) -> bool {
    &&& n.name == o.name
    &&& n.doc == o.doc
    &&& match value {
        ExportedValue::Function(f) => n.functions@ == o.functions@.push(f) && n.fields@
            == o.fields@,
        ExportedValue::NestedModule(ex) => {
            &&& n.functions@ == o.functions@
            &&& n.fields@.len() == o.fields@.len() + 1
            &&& n.fields@.drop_last() == o.fields@
            &&& n.fields@.last().name == name
            &&& n.fields@.last().ty@ == LuaTy::Class(ex.module.name@)
            &&& n.fields@.last().writable
            &&& n.fields@.last().doc is None
        },
        ExportedValue::Field(ty) => n.functions@ == o.functions@ && n.fields@ == o.fields@.push(
            LuaField { name, ty, writable: true, doc: None },
        ),
    }
}

/// Records the value `value` registered under `name` on `module`: a
/// function is added to its functions; a nested module becomes a field of
/// that module's class and, where `nested_modules` is given, is collected
/// there after its own nested modules; anything else becomes a field.
pub fn push_exported_value(
    module: &mut LuaModule,
    name: String,
    value: ExportedValue,
    nested_modules: Option<&mut Vec<LuaModule>>,
)
    ensures
        pushed_exported(*old(module), *final(module), name, value),
{
    match value {
        ExportedValue::Function(func) => module.functions.push(func),
        ExportedValue::NestedModule(extracted) => {
            let nested_name = owned(extracted.module.name.as_str());
            let ghost before = module.fields@;
            module.fields.push(writable_field(name, LuaType::Class(nested_name)));
            assert(module.fields@.drop_last() =~= before);
            if let Some(nested) = nested_modules {
                let ExtractedModule { module: m, nested_modules: inner } = extracted;
                let mut inner = inner;
                nested.append(&mut inner);
                nested.push(m);
            }
        },
        ExportedValue::Field(ty) => module.fields.push(writable_field(name, ty)),
    }
}

// ── unexported registration modules ───────────────────────────────────

pub open spec fn texts_contain(names: Seq<String>, n: Seq<char>) -> bool {
    exists|i: int| 0 <= i < names.len() && (#[trigger] names[i])@ == n
}

/// Whether a module was registered locally but never exported.
pub open spec fn unexported(m: LuaModule, local: Seq<String>, exported: Seq<String>) -> bool {
    texts_contain(local, m.name@) && !texts_contain(exported, m.name@)
}

/// The modules of `ms` that are not unexported registration modules.
pub open spec fn exported_modules(ms: Seq<LuaModule>, local: Seq<String>, exported: Seq<String>) -> Seq<LuaModule>
    decreases ms.len(),
{
    if ms.len() == 0 {
        ms
    } else if unexported(ms.last(), local, exported) {
        exported_modules(ms.drop_last(), local, exported)
    } else {
        exported_modules(ms.drop_last(), local, exported).push(ms.last())
    }
}

fn names_contain(names: &[String], n: &str) -> (r: bool)
    ensures
        r == texts_contain(names@, n@),
{
    let mut i: usize = 0;
    while i < names.len()
        invariant
            i <= names@.len(),
            forall|j: int| 0 <= j < i ==> (#[trigger] names@[j])@ != n@,
        decreases names.len() - i,
    {
        if str_eq(names[i].as_str(), n) {
            return true;
        }
        i += 1;
    }
    false
}

/// Drops the modules that were registered locally but not exported.
pub fn prune_unexported_registration_modules(
    api: &mut LuaApi,
    local_module_names: &[String],
    exported_module_names: &[String],
)
    ensures
        same_but_modules(*old(api), *final(api)),
        final(api).modules@ == exported_modules(
            old(api).modules@,
            local_module_names@,
            exported_module_names@,
        ),
{
    let ghost o = *api;
    let ghost ms = api.modules@;
    let mut rest: Vec<LuaModule> = Vec::new();
    std::mem::swap(&mut rest, &mut api.modules);
    let n = rest.len();
    let mut i: usize = 0;
    while rest.len() > 0
        invariant
            same_but_modules(o, *api),
            n == ms.len(),
            i + rest@.len() == n,
            rest@ == ms.subrange(i as int, n as int),
            api.modules@ == exported_modules(
                ms.take(i as int),
                local_module_names@,
                exported_module_names@,
            ),
        decreases rest.len(),
    {
        let m = rest.remove(0);
        assert(ms.take(i + 1).drop_last() =~= ms.take(i as int));
        assert(ms.take(i + 1).last() == m);
        let drop = names_contain(local_module_names, m.name.as_str()) && !names_contain(
            exported_module_names,
            m.name.as_str(),
        );
        if !drop {
            api.modules.push(m);
        }
        assert(rest@ =~= ms.subrange(i + 1, n as int));
        i += 1;
    }
    assert(ms.take(n as int) =~= ms);
}

// ── duplicates ────────────────────────────────────────────────────────

/// Whether some member of `s` has the key `k`.
pub open spec fn key_seen<T, K>(s: Seq<T>, key: spec_fn(T) -> K, k: K) -> bool {
    exists|j: int| 0 <= j < s.len() && key(#[trigger] s[j]) == k
}

/// The members of `s` in order, each kept only where no earlier member has
/// its key.
pub open spec fn kept_firsts<T, K>(s: Seq<T>, key: spec_fn(T) -> K) -> Seq<T>
    decreases s.len(),
{
    if s.len() == 0 {
        s
    } else if key_seen(s.drop_last(), key, key(s.last())) {
        kept_firsts(s.drop_last(), key)
    } else {
        kept_firsts(s.drop_last(), key).push(s.last())
    }
}

/// Keeping first occurrences loses no key.
pub proof fn lemma_kept_keys<T, K>(s: Seq<T>, key: spec_fn(T) -> K, k: K)
    ensures
        key_seen(kept_firsts(s, key), key, k) == key_seen(s, key, k),
    decreases s.len(),
{
    if s.len() > 0 {
        let d = kept_firsts(s.drop_last(), key);
        lemma_kept_keys(s.drop_last(), key, k);
        lemma_kept_keys(s.drop_last(), key, key(s.last()));
        if key_seen(s, key, k) {
            let j = choose|j: int| 0 <= j < s.len() && key(#[trigger] s[j]) == k;
            if j < s.len() - 1 {
                assert(s.drop_last()[j] == s[j]);
            }
        }
        if key_seen(s.drop_last(), key, k) {
            let j = choose|j: int| 0 <= j < s.drop_last().len() && key(#[trigger] s.drop_last()[j]) == k;
            assert(s[j] == s.drop_last()[j]);
        }
        if !key_seen(s.drop_last(), key, key(s.last())) {
            let e = d.push(s.last());
            if key_seen(e, key, k) {
                let j = choose|j: int| 0 <= j < e.len() && key(#[trigger] e[j]) == k;
                if j < d.len() {
                    assert(e[j] == d[j]);
                }
            }
            if key_seen(d, key, k) {
                let j = choose|j: int| 0 <= j < d.len() && key(#[trigger] d[j]) == k;
                assert(e[j] == d[j]);
            }
            assert(e[e.len() - 1] == s.last());
            assert(s[s.len() - 1] == s.last());
        }
    }
}

proof fn lemma_kept_step<T, K>(s: Seq<T>, key: spec_fn(T) -> K, i: int)
    requires
        0 <= i < s.len(),
    ensures
        kept_firsts(s.take(i + 1), key) == (if key_seen(kept_firsts(s.take(i), key), key, key(s[i])) {
            kept_firsts(s.take(i), key)
        } else {
            kept_firsts(s.take(i), key).push(s[i])
        }),
{
    assert(s.take(i + 1).drop_last() =~= s.take(i));
    assert(s.take(i + 1).last() == s[i]);
    lemma_kept_keys(s.take(i), key, key(s[i]));
}

pub proof fn lemma_seen_step<T, K>(s: Seq<T>, key: spec_fn(T) -> K, k: int, x: K)
    requires
        0 <= k < s.len(),
    ensures
        key_seen(s.take(k + 1), key, x) == (key_seen(s.take(k), key, x) || key(s[k]) == x),
{
    if key_seen(s.take(k + 1), key, x) && !key_seen(s.take(k), key, x) {
        let j = choose|j: int| 0 <= j < s.take(k + 1).len() && key(#[trigger] s.take(k + 1)[j]) == x;
        if j < k {
            assert(s.take(k)[j] == s.take(k + 1)[j]);
        }
    }
    if key_seen(s.take(k), key, x) {
        let j = choose|j: int| 0 <= j < s.take(k).len() && key(#[trigger] s.take(k)[j]) == x;
        assert(s.take(k + 1)[j] == s.take(k)[j]);
    }
    assert(s.take(k + 1)[k] == s[k]);
}

pub open spec fn field_key() -> spec_fn(LuaField) -> Seq<char> {
    |f: LuaField| f.name@
}

/// Removes fields whose name an earlier field has.
pub fn dedupe_fields(fields: &mut Vec<LuaField>)
    ensures
        final(fields)@ == kept_firsts(old(fields)@, field_key()),
{
    let ghost s = fields@;
    let mut rest: Vec<LuaField> = Vec::new();
    std::mem::swap(&mut rest, fields);
    let n = rest.len();
    let mut out: Vec<LuaField> = Vec::new();
    let mut i: usize = 0;
    while rest.len() > 0
        invariant
            n == s.len(),
            i + rest@.len() == n,
            rest@ == s.subrange(i as int, n as int),
            out@ == kept_firsts(s.take(i as int), field_key()),
        decreases rest.len(),
    {
        let f = rest.remove(0);
        assert(f == s[i as int]);
        proof {
            lemma_kept_step(s, field_key(), i as int);
        }
        let mut seen = false;
        let mut k: usize = 0;
        while k < out.len()
            invariant
                k <= out@.len(),
                seen == key_seen(out@.take(k as int), field_key(), f.name@),
            decreases out.len() - k,
        {
            proof {
                lemma_seen_step(out@, field_key(), k as int, f.name@);
            }
            if str_eq(out[k].name.as_str(), f.name.as_str()) {
                seen = true;
            }
            k += 1;
        }
        assert(out@.take(out@.len() as int) =~= out@);
        if !seen {
            out.push(f);
        }
        assert(rest@ =~= s.subrange(i + 1, n as int));
        i += 1;
    }
    assert(s.take(n as int) =~= s);
    *fields = out;
}


pub open spec fn param_keys(ps: Seq<LuaParam>) -> Seq<(Seq<char>, LuaTy)> {
    Seq::new(ps.len(), |i: int| (ps[i].name@, ps[i].ty@))
}

pub open spec fn return_keys(rs: Seq<LuaReturn>) -> Seq<(LuaTy, Option<Seq<char>>)> {
    Seq::new(rs.len(), |i: int| (rs[i].ty@, name_view(rs[i].name)))
}

/// What tells two methods apart: everything but the doc.
pub open spec fn method_key() -> spec_fn(LuaMethod) -> (Seq<char>, MethodKind, bool, Seq<(Seq<char>, LuaTy)>, Seq<(LuaTy, Option<Seq<char>>)>) {
    |m: LuaMethod| (m.name@, m.kind, m.is_async, param_keys(m.params@), return_keys(m.returns@))
}

/// What tells two functions apart: everything but the doc.
pub open spec fn function_key() -> spec_fn(LuaFunction) -> (Seq<char>, bool, Seq<(Seq<char>, LuaTy)>, Seq<(LuaTy, Option<Seq<char>>)>) {
    |f: LuaFunction| (f.name@, f.is_async, param_keys(f.params@), return_keys(f.returns@))
}

fn same_params(a: &Vec<LuaParam>, b: &Vec<LuaParam>) -> (r: bool)
    ensures
        r == (param_keys(a@) == param_keys(b@)),
{
    if a.len() != b.len() {
        assert(param_keys(a@).len() != param_keys(b@).len());
        return false;
    }
    let mut i: usize = 0;
    while i < a.len()
        invariant
            a@.len() == b@.len(),
            i <= a@.len(),
            forall|j: int| 0 <= j < i ==> param_keys(a@)[j] == param_keys(b@)[j],
        decreases a.len() - i,
    {
        if !str_eq(a[i].name.as_str(), b[i].name.as_str()) || !ty_eq(&a[i].ty, &b[i].ty) {
            assert(param_keys(a@)[i as int] != param_keys(b@)[i as int]);
            return false;
        }
        i += 1;
    }
    assert(param_keys(a@) =~= param_keys(b@));
    true
}

fn same_opt_name(a: &Option<String>, b: &Option<String>) -> (r: bool)
    ensures
        r == (name_view(*a) == name_view(*b)),
{
    match (a, b) {
        (Some(x), Some(y)) => str_eq(x.as_str(), y.as_str()),
        (None, None) => true,
        _ => false,
    }
}

fn same_returns(a: &Vec<LuaReturn>, b: &Vec<LuaReturn>) -> (r: bool)
    ensures
        r == (return_keys(a@) == return_keys(b@)),
{
    if a.len() != b.len() {
        assert(return_keys(a@).len() != return_keys(b@).len());
        return false;
    }
    let mut i: usize = 0;
    while i < a.len()
        invariant
            a@.len() == b@.len(),
            i <= a@.len(),
            forall|j: int| 0 <= j < i ==> return_keys(a@)[j] == return_keys(b@)[j],
        decreases a.len() - i,
    {
        if !ty_eq(&a[i].ty, &b[i].ty) || !same_opt_name(&a[i].name, &b[i].name) {
            assert(return_keys(a@)[i as int] != return_keys(b@)[i as int]);
            return false;
        }
        i += 1;
    }
    assert(return_keys(a@) =~= return_keys(b@));
    true
}

fn same_method(a: &LuaMethod, b: &LuaMethod) -> (r: bool)
    ensures
        r == ((method_key())(*a) == (method_key())(*b)),
{
    str_eq(a.name.as_str(), b.name.as_str()) && a.kind == b.kind && a.is_async == b.is_async
        && same_params(&a.params, &b.params) && same_returns(&a.returns, &b.returns)
}

fn same_function(a: &LuaFunction, b: &LuaFunction) -> (r: bool)
    ensures
        r == ((function_key())(*a) == (function_key())(*b)),
{
    str_eq(a.name.as_str(), b.name.as_str()) && a.is_async == b.is_async && same_params(
        &a.params,
        &b.params,
    ) && same_returns(&a.returns, &b.returns)
}

/// Removes methods that repeat an earlier method in all but the doc.
pub fn dedupe_methods(methods: &mut Vec<LuaMethod>)
    ensures
        final(methods)@ == kept_firsts(old(methods)@, method_key()),
{
    let ghost s = methods@;
    let mut rest: Vec<LuaMethod> = Vec::new();
    std::mem::swap(&mut rest, methods);
    let n = rest.len();
    let mut out: Vec<LuaMethod> = Vec::new();
    let mut i: usize = 0;
    while rest.len() > 0
        invariant
            n == s.len(),
            i + rest@.len() == n,
            rest@ == s.subrange(i as int, n as int),
            out@ == kept_firsts(s.take(i as int), method_key()),
        decreases rest.len(),
    {
        let m = rest.remove(0);
        assert(m == s[i as int]);
        proof {
            lemma_kept_step(s, method_key(), i as int);
        }
        let mut seen = false;
        let mut k: usize = 0;
        while k < out.len()
            invariant
                k <= out@.len(),
                seen == key_seen(out@.take(k as int), method_key(), (method_key())(m)),
            decreases out.len() - k,
        {
            proof {
                lemma_seen_step(out@, method_key(), k as int, (method_key())(m));
            }
            if same_method(&out[k], &m) {
                seen = true;
            }
            k += 1;
        }
        assert(out@.take(out@.len() as int) =~= out@);
        if !seen {
            out.push(m);
        }
        assert(rest@ =~= s.subrange(i + 1, n as int));
        i += 1;
    }
    assert(s.take(n as int) =~= s);
    *methods = out;
}

/// Removes functions that repeat an earlier function in all but the doc.
pub fn dedupe_functions(functions: &mut Vec<LuaFunction>)
    ensures
        final(functions)@ == kept_firsts(old(functions)@, function_key()),
{
    let ghost s = functions@;
    let mut rest: Vec<LuaFunction> = Vec::new();
    std::mem::swap(&mut rest, functions);
    let n = rest.len();
    let mut out: Vec<LuaFunction> = Vec::new();
    let mut i: usize = 0;
    while rest.len() > 0
        invariant
            n == s.len(),
            i + rest@.len() == n,
            rest@ == s.subrange(i as int, n as int),
            out@ == kept_firsts(s.take(i as int), function_key()),
        decreases rest.len(),
    {
        let f = rest.remove(0);
        assert(f == s[i as int]);
        proof {
            lemma_kept_step(s, function_key(), i as int);
        }
        let mut seen = false;
        let mut k: usize = 0;
        while k < out.len()
            invariant
                k <= out@.len(),
                seen == key_seen(out@.take(k as int), function_key(), (function_key())(f)),
            decreases out.len() - k,
        {
            proof {
                lemma_seen_step(out@, function_key(), k as int, (function_key())(f));
            }
            if same_function(&out[k], &f) {
                seen = true;
            }
            k += 1;
        }
        assert(out@.take(out@.len() as int) =~= out@);
        if !seen {
            out.push(f);
        }
        assert(rest@ =~= s.subrange(i + 1, n as int));
        i += 1;
    }
    assert(s.take(n as int) =~= s);
    *functions = out;
}

// ── name order ────────────────────────────────────────────────────────

/// The order of names: by characters, a proper prefix first. UTF-8
/// preserves the order of code points, so this is the byte order that
/// Rust's `Ord` for strings uses.
pub open spec fn text_lt(a: Seq<char>, b: Seq<char>) -> bool
    decreases a.len(),
{
    if b.len() == 0 {
        false
    } else if a.len() == 0 {
        true
    } else if a[0] != b[0] {
        a[0] < b[0]
    } else {
        text_lt(a.drop_first(), b.drop_first())
    }
}

pub proof fn lemma_text_lt_irreflexive(a: Seq<char>)
    ensures
        !text_lt(a, a),
    decreases a.len(),
{
    if a.len() > 0 {
        lemma_text_lt_irreflexive(a.drop_first());
    }
}

pub proof fn lemma_text_lt_asymmetric(a: Seq<char>, b: Seq<char>)
    ensures
        !(text_lt(a, b) && text_lt(b, a)),
    decreases a.len(),
{
    if a.len() > 0 && b.len() > 0 && a[0] == b[0] {
        lemma_text_lt_asymmetric(a.drop_first(), b.drop_first());
    }
}

pub proof fn lemma_text_lt_total(a: Seq<char>, b: Seq<char>)
    ensures
        a != b ==> text_lt(a, b) || text_lt(b, a),
    decreases a.len(),
{
    if a.len() > 0 && b.len() > 0 && a[0] == b[0] {
        lemma_text_lt_total(a.drop_first(), b.drop_first());
        if a.drop_first() == b.drop_first() {
            assert(a =~= seq![a[0]] + a.drop_first());
            assert(b =~= seq![b[0]] + b.drop_first());
        }
    } else if a.len() == 0 && b.len() == 0 {
        assert(a =~= b);
    }
}

pub proof fn lemma_text_lt_transitive(a: Seq<char>, b: Seq<char>, c: Seq<char>)
    requires
        text_lt(a, b),
        text_lt(b, c),
    ensures
        text_lt(a, c),
    decreases a.len(),
{
    if a.len() > 0 && a[0] == b[0] && b[0] == c[0] {
        lemma_text_lt_transitive(a.drop_first(), b.drop_first(), c.drop_first());
    }
}

fn text_lt_exec(a: &str, b: &str) -> (r: bool)
    ensures
        r == text_lt(a@, b@),
{
    let na = a.unicode_len();
    let nb = b.unicode_len();
    let mut i: usize = 0;
    assert(a@.skip(0) =~= a@);
    assert(b@.skip(0) =~= b@);
    loop
        invariant
            na == a@.len(),
            nb == b@.len(),
            i <= na,
            i <= nb,
            text_lt(a@, b@) == text_lt(a@.skip(i as int), b@.skip(i as int)),
        decreases na - i,
    {
        assert(a@.skip(i as int).len() == na - i);
        assert(b@.skip(i as int).len() == nb - i);
        if i == nb {
            return false;
        }
        if i == na {
            return true;
        }
        let ca = a.get_char(i);
        let cb = b.get_char(i);
        assert(a@.skip(i as int)[0] == ca);
        assert(b@.skip(i as int)[0] == cb);
        if ca != cb {
            return ca < cb;
        }
        assert(a@.skip(i as int).drop_first() =~= a@.skip(i + 1));
        assert(b@.skip(i as int).drop_first() =~= b@.skip(i + 1));
        i += 1;
    }
}

/// Something with a name.
pub trait Named {
    spec fn name_of(&self) -> Seq<char>;

    fn name_str(&self) -> (r: &str)
        ensures
            r@ == self.name_of(),
    ;
}

impl Named for LuaClass {
    open spec fn name_of(&self) -> Seq<char> {
        self.name@
    }

    fn name_str(&self) -> (r: &str) {
        self.name.as_str()
    }
}

impl Named for LuaEnum {
    open spec fn name_of(&self) -> Seq<char> {
        self.name@
    }

    fn name_str(&self) -> (r: &str) {
        self.name.as_str()
    }
}

impl Named for LuaModule {
    open spec fn name_of(&self) -> Seq<char> {
        self.name@
    }

    fn name_str(&self) -> (r: &str) {
        self.name.as_str()
    }
}

impl Named for LuaField {
    open spec fn name_of(&self) -> Seq<char> {
        self.name@
    }

    fn name_str(&self) -> (r: &str) {
        self.name.as_str()
    }
}

impl Named for LuaFunction {
    open spec fn name_of(&self) -> Seq<char> {
        self.name@
    }

    fn name_str(&self) -> (r: &str) {
        self.name.as_str()
    }
}

pub open spec fn name_key<T: Named>() -> spec_fn(T) -> Seq<char> {
    |x: T| x.name_of()
}

/// Names strictly increase along `s`.
pub open spec fn sorted_by_name<T: Named>(s: Seq<T>) -> bool {
    forall|i: int, j: int| 0 <= i < j < s.len() ==> text_lt(s[i].name_of(), s[j].name_of())
}

/// `r` holds, in name order, the first of each name in `s`.
pub open spec fn sorted_unique<T: Named>(s: Seq<T>, r: Seq<T>) -> bool {
    &&& sorted_by_name(r)
    &&& forall|x: T| #[trigger] r.contains(x) <==> kept_firsts(s, name_key::<T>()).contains(x)
}

/// Where an item named `xs` goes among the sorted `out`, or where that
/// name already is.
fn find_slot<T: Named>(out: &Vec<T>, xs: &str) -> (r: (usize, bool))
    requires
        sorted_by_name(out@),
    ensures
        r.0 <= out@.len(),
        r.1 ==> r.0 < out@.len() && out@[r.0 as int].name_of() == xs@,
        !r.1 ==> forall|k: int| 0 <= k < r.0 ==> text_lt((#[trigger] out@[k]).name_of(), xs@),
        !r.1 ==> forall|k: int|
            r.0 <= k < out@.len() ==> text_lt(xs@, (#[trigger] out@[k]).name_of()),
{
    let mut p: usize = 0;
    while p < out.len()
        invariant
            p <= out@.len(),
            sorted_by_name(out@),
            forall|k: int| 0 <= k < p ==> text_lt((#[trigger] out@[k]).name_of(), xs@),
        decreases out.len() - p,
    {
        let on = out[p].name_str();
        if str_eq(on, xs) {
            return (p, true);
        }
        if text_lt_exec(xs, on) {
            proof {
                assert forall|k: int| p <= k < out@.len() implies text_lt(
                    xs@,
                    (#[trigger] out@[k]).name_of(),
                ) by {
                    if k > p {
                        lemma_text_lt_transitive(xs@, out@[p as int].name_of(), out@[k].name_of());
                    }
                }
            }
            return (p, false);
        }
        proof {
            lemma_text_lt_total(out@[p as int].name_of(), xs@);
        }
        p += 1;
    }
    (p, false)
}

/// Sorts `v` by name, keeping the first item of each name.
pub fn sort_unique_by_name<T: Named>(v: Vec<T>) -> (r: Vec<T>)
    ensures
        sorted_unique(v@, r@),
{
    let ghost s = v@;
    let mut rest = v;
    let n = rest.len();
    let mut out: Vec<T> = Vec::new();
    let mut i: usize = 0;
    while rest.len() > 0
        invariant
            n == s.len(),
            i + rest@.len() == n,
            rest@ == s.subrange(i as int, n as int),
            sorted_by_name(out@),
            forall|y: T| #[trigger] out@.contains(y) <==> kept_firsts(
                s.take(i as int),
                name_key::<T>(),
            ).contains(y),
            forall|nm: Seq<char>|
                #[trigger] key_seen(out@, name_key::<T>(), nm) == key_seen(
                    s.take(i as int),
                    name_key::<T>(),
                    nm,
                ),
        decreases rest.len(),
    {
        let x = rest.remove(0);
        assert(x == s[i as int]);
        let ghost xn = x.name_of();
        let ghost kept = kept_firsts(s.take(i as int), name_key::<T>());
        let ghost old_out = out@;
        proof {
            lemma_kept_step(s, name_key::<T>(), i as int);
            lemma_kept_keys(s.take(i as int), name_key::<T>(), xn);
            assert((name_key::<T>())(s[i as int]) == xn);
        }
        let (p, taken) = find_slot(&out, x.name_str());
        if taken {
            proof {
                assert((name_key::<T>())(out@[p as int]) == xn);
                assert(key_seen(out@, name_key::<T>(), xn));
            }
        } else {
            proof {
                assert(!key_seen(out@, name_key::<T>(), xn)) by {
                    if key_seen(out@, name_key::<T>(), xn) {
                        let j = choose|j: int|
                            0 <= j < out@.len() && (name_key::<T>())(#[trigger] out@[j]) == xn;
                        if j < p {
                            assert(text_lt(out@[j].name_of(), xn));
                        } else {
                            assert(text_lt(xn, out@[j].name_of()));
                        }
                        lemma_text_lt_irreflexive(xn);
                    }
                }
            }
            out.insert(p, x);
            proof {
                let e = old_out.insert(p as int, s[i as int]);
                assert(out@ == e);
                assert forall|a: int, b: int| 0 <= a < b < e.len() implies text_lt(
                    e[a].name_of(),
                    e[b].name_of(),
                ) by {
                    if b < p {
                    } else if b == p {
                    } else if a < p {
                        lemma_text_lt_transitive(
                            old_out[a].name_of(),
                            xn,
                            old_out[b - 1].name_of(),
                        );
                    } else if a == p {
                    } else {
                    }
                }
                assert forall|y: T| #[trigger] e.contains(y) <==> (y == s[i as int]
                    || old_out.contains(y)) by {
                    if e.contains(y) {
                        let j = choose|j: int| 0 <= j < e.len() && e[j] == y;
                        if j < p {
                            assert(old_out[j] == y);
                        } else if j > p {
                            assert(old_out[j - 1] == y);
                        }
                    }
                    if old_out.contains(y) {
                        let j = choose|j: int| 0 <= j < old_out.len() && old_out[j] == y;
                        if j < p {
                            assert(e[j] == y);
                        } else {
                            assert(e[j + 1] == y);
                        }
                    }
                    if y == s[i as int] {
                        assert(e[p as int] == y);
                    }
                }
                assert forall|y: T| #[trigger] kept.push(s[i as int]).contains(y) <==> (y == s[i as int]
                    || kept.contains(y)) by {
                    let kp = kept.push(s[i as int]);
                    if kp.contains(y) {
                        let j = choose|j: int| 0 <= j < kp.len() && kp[j] == y;
                        if j < kept.len() {
                            assert(kept[j] == y);
                        }
                    }
                    if kept.contains(y) {
                        let j = choose|j: int| 0 <= j < kept.len() && kept[j] == y;
                        assert(kp[j] == y);
                    }
                    if y == s[i as int] {
                        assert(kp[kept.len() as int] == y);
                    }
                }
                assert forall|nm: Seq<char>| #[trigger] key_seen(e, name_key::<T>(), nm) == (key_seen(
                    old_out,
                    name_key::<T>(),
                    nm,
                ) || xn == nm) by {
                    if key_seen(e, name_key::<T>(), nm) {
                        let j = choose|j: int| 0 <= j < e.len() && (name_key::<T>())(#[trigger] e[j]) == nm;
                        if j < p {
                            assert(old_out[j] == e[j]);
                        } else if j > p {
                            assert(old_out[j - 1] == e[j]);
                        }
                    }
                    if key_seen(old_out, name_key::<T>(), nm) {
                        let j = choose|j: int|
                            0 <= j < old_out.len() && (name_key::<T>())(#[trigger] old_out[j]) == nm;
                        if j < p {
                            assert(e[j] == old_out[j]);
                        } else {
                            assert(e[j + 1] == old_out[j]);
                        }
                    }
                    if xn == nm {
                        assert(e[p as int] == s[i as int]);
                    }
                }
            }
        }
        proof {
            assert forall|nm: Seq<char>| #[trigger] key_seen(s.take(i + 1), name_key::<T>(), nm)
                == (key_seen(s.take(i as int), name_key::<T>(), nm) || xn == nm) by {
                lemma_seen_step(s, name_key::<T>(), i as int, nm);
                assert(s.take(i + 1) == s.take(i + 1).take(i + 1));
            }
        }
        assert(rest@ =~= s.subrange(i + 1, n as int));
        i += 1;
    }
    assert(s.take(n as int) =~= s);
    out
}

// ── the whole API ─────────────────────────────────────────────────────

/// `c` is `o` with duplicate fields and methods removed.
pub open spec fn class_deduped(o: LuaClass, c: LuaClass) -> bool {
    &&& c.name == o.name
    &&& c.doc == o.doc
    &&& c.fields@ == kept_firsts(o.fields@, field_key())
    &&& c.methods@ == kept_firsts(o.methods@, method_key())
}

/// `m` is `o` with duplicate fields and functions removed.
pub open spec fn module_deduped(o: LuaModule, m: LuaModule) -> bool {
    &&& m.name == o.name
    &&& m.doc == o.doc
    &&& m.fields@ == kept_firsts(o.fields@, field_key())
    &&& m.functions@ == kept_firsts(o.functions@, function_key())
}

/// `c` is one of `cs` with its duplicates removed.
pub open spec fn class_from(cs: Seq<LuaClass>, c: LuaClass) -> bool {
    exists|j: int| 0 <= j < cs.len() && #[trigger] class_deduped(cs[j], c)
}

/// One of `cs` is `o` with its duplicates removed.
pub open spec fn class_kept_in(cs: Seq<LuaClass>, o: LuaClass) -> bool {
    exists|k: int| 0 <= k < cs.len() && #[trigger] class_deduped(o, cs[k])
}

/// The classes `new` are, in name order, the first class of each name in
/// `old`, each without duplicate fields and methods.
pub open spec fn classes_deduped(old: Seq<LuaClass>, new: Seq<LuaClass>) -> bool {
    let kept = kept_firsts(old, name_key::<LuaClass>());
    &&& sorted_by_name(new)
    &&& forall|k: int| 0 <= k < new.len() ==> #[trigger] class_from(kept, new[k])
    &&& forall|j: int| 0 <= j < kept.len() ==> #[trigger] class_kept_in(new, kept[j])
}

/// `m` is one of `ms` with its duplicates removed.
pub open spec fn module_from(ms: Seq<LuaModule>, m: LuaModule) -> bool {
    exists|j: int| 0 <= j < ms.len() && #[trigger] module_deduped(ms[j], m)
}

/// One of `ms` is `o` with its duplicates removed.
pub open spec fn module_kept_in(ms: Seq<LuaModule>, o: LuaModule) -> bool {
    exists|k: int| 0 <= k < ms.len() && #[trigger] module_deduped(o, ms[k])
}

/// `o` is a helper table once its duplicates are removed.
pub open spec fn deduped_synthetic(o: LuaModule) -> bool {
    synthetic_parts(
        o.name@,
        kept_firsts(o.functions@, function_key()),
        kept_firsts(o.fields@, field_key()),
    )
}

/// The modules `new` are, in name order, the first module of each name in
/// `old`, each without duplicate fields and functions, leaving out those
/// that are then helper tables.
pub open spec fn modules_deduped(old: Seq<LuaModule>, new: Seq<LuaModule>) -> bool {
    let kept = kept_firsts(old, name_key::<LuaModule>());
    &&& sorted_by_name(new)
    &&& forall|k: int|
        0 <= k < new.len() ==> !synthetic_helper(new[k]) && #[trigger] module_from(kept, new[k])
    &&& forall|j: int|
        0 <= j < kept.len() ==> #[trigger] module_kept_in(new, kept[j]) || deduped_synthetic(kept[j])
}

fn dedupe_classes(classes: Vec<LuaClass>) -> (r: Vec<LuaClass>)
    ensures
        classes_deduped(classes@, r@),
{
    let mut v = sort_unique_by_name(classes);
    let ghost pre = v@;
    let ghost kept = kept_firsts(classes@, name_key::<LuaClass>());
    let mut i: usize = 0;
    while i < v.len()
        invariant
            i <= v@.len(),
            v@.len() == pre.len(),
            forall|k: int| 0 <= k < i ==> #[trigger] class_deduped(pre[k], v@[k]),
            forall|k: int| i <= k < pre.len() ==> #[trigger] v@[k] == pre[k],
        decreases v.len() - i,
    {
        dedupe_fields(&mut v[i].fields);
        dedupe_methods(&mut v[i].methods);
        i += 1;
    }
    proof {
        assert(sorted_by_name(v@)) by {
            assert forall|a: int, b: int| 0 <= a < b < v@.len() implies text_lt(
                v@[a].name_of(),
                v@[b].name_of(),
            ) by {
                assert(class_deduped(pre[a], v@[a]));
                assert(class_deduped(pre[b], v@[b]));
                assert(sorted_by_name(pre));
                assert(text_lt(pre[a].name_of(), pre[b].name_of()));
            }
        }
        assert forall|k: int| 0 <= k < v@.len() implies #[trigger] class_from(kept, v@[k]) by {
            assert(class_deduped(pre[k], v@[k]));
            assert(pre.contains(pre[k]));
            assert(kept.contains(pre[k]));
            let j = choose|j: int| 0 <= j < kept.len() && kept[j] == pre[k];
            assert(class_deduped(kept[j], v@[k]));
        }
        assert forall|j: int| 0 <= j < kept.len() implies #[trigger] class_kept_in(v@, kept[j]) by {
            assert(kept.contains(kept[j]));
            assert(pre.contains(kept[j]));
            let k = choose|k: int| 0 <= k < pre.len() && pre[k] == kept[j];
            assert(class_deduped(pre[k], v@[k]));
            assert(class_deduped(kept[j], v@[k]));
        }
    }
    v
}

fn dedupe_modules(modules: Vec<LuaModule>) -> (r: Vec<LuaModule>)
    ensures
        modules_deduped(modules@, r@),
{
    let mut v = sort_unique_by_name(modules);
    let ghost pre = v@;
    let ghost kept = kept_firsts(modules@, name_key::<LuaModule>());
    let mut i: usize = 0;
    while i < v.len()
        invariant
            i <= v@.len(),
            v@.len() == pre.len(),
            forall|k: int| 0 <= k < i ==> #[trigger] module_deduped(pre[k], v@[k]),
            forall|k: int| i <= k < pre.len() ==> #[trigger] v@[k] == pre[k],
        decreases v.len() - i,
    {
        dedupe_fields(&mut v[i].fields);
        dedupe_functions(&mut v[i].functions);
        i += 1;
    }
    let ghost d = v@;
    assert(sorted_by_name(d)) by {
        assert forall|a: int, b: int| 0 <= a < b < d.len() implies text_lt(
            d[a].name_of(),
            d[b].name_of(),
        ) by {
            assert(module_deduped(pre[a], d[a]));
            assert(module_deduped(pre[b], d[b]));
            assert(sorted_by_name(pre));
            assert(text_lt(pre[a].name_of(), pre[b].name_of()));
        }
    }
    let n = v.len();
    let mut out: Vec<LuaModule> = Vec::new();
    let mut j: usize = 0;
    while v.len() > 0
        invariant
            n == d.len(),
            j + v@.len() == n,
            v@ == d.subrange(j as int, n as int),
            sorted_by_name(d),
            sorted_by_name(out@),
            forall|k: int, l: int|
                0 <= k < out@.len() && j <= l < n ==> text_lt(
                    (#[trigger] out@[k]).name_of(),
                    (#[trigger] d[l]).name_of(),
                ),
            forall|k: int|
                0 <= k < out@.len() ==> !synthetic_helper(#[trigger] out@[k]) && exists|l: int|
                    0 <= l < j && d[l] == out@[k],
            forall|l: int|
                0 <= l < j ==> synthetic_helper(#[trigger] d[l]) || exists|k: int|
                    0 <= k < out@.len() && out@[k] == d[l],
        decreases v.len(),
    {
        let m = v.remove(0);
        assert(m == d[j as int]);
        let ghost old_out = out@;
        if !is_synthetic_helper_module(&m) {
            out.push(m);
            proof {
                assert forall|k: int, l: int|
                    0 <= k < out@.len() && j + 1 <= l < n implies text_lt(
                    (#[trigger] out@[k]).name_of(),
                    (#[trigger] d[l]).name_of(),
                ) by {
                    if k < old_out.len() {
                        assert(out@[k] == old_out[k]);
                    }
                }
                assert forall|a: int, b: int| 0 <= a < b < out@.len() implies text_lt(
                    out@[a].name_of(),
                    out@[b].name_of(),
                ) by {
                    assert(out@[a] == old_out[a]);
                    if b < old_out.len() {
                        assert(out@[b] == old_out[b]);
                    }
                }
                assert forall|k: int| 0 <= k < out@.len() implies !synthetic_helper(
                    #[trigger] out@[k],
                ) && exists|l: int| 0 <= l < j + 1 && d[l] == out@[k] by {
                    if k < old_out.len() {
                        assert(out@[k] == old_out[k]);
                    } else {
                        assert(d[j as int] == out@[k]);
                    }
                }
                assert forall|l: int| 0 <= l < j + 1 implies synthetic_helper(#[trigger] d[l])
                    || exists|k: int| 0 <= k < out@.len() && out@[k] == d[l] by {
                    if l < j {
                        if !synthetic_helper(d[l]) {
                            let k = choose|k: int| 0 <= k < old_out.len() && old_out[k] == d[l];
                            assert(out@[k] == old_out[k]);
                        }
                    } else {
                        assert(out@[old_out.len() as int] == d[l]);
                    }
                }
            }
        }
        assert(v@ =~= d.subrange(j + 1, n as int));
        j += 1;
    }
    proof {
        assert forall|k: int| 0 <= k < out@.len() implies !synthetic_helper(out@[k])
            && #[trigger] module_from(kept, out@[k]) by {
            let l = choose|l: int| 0 <= l < n && d[l] == out@[k];
            assert(module_deduped(pre[l], d[l]));
            assert(pre.contains(pre[l]));
            assert(kept.contains(pre[l]));
            let jj = choose|jj: int| 0 <= jj < kept.len() && kept[jj] == pre[l];
            assert(module_deduped(kept[jj], out@[k]));
        }
        assert forall|jj: int| 0 <= jj < kept.len() implies #[trigger] module_kept_in(out@, kept[jj])
            || deduped_synthetic(kept[jj]) by {
            assert(kept.contains(kept[jj]));
            assert(pre.contains(kept[jj]));
            let l = choose|l: int| 0 <= l < pre.len() && pre[l] == kept[jj];
            assert(module_deduped(pre[l], d[l]));
            if !synthetic_helper(d[l]) {
                let k = choose|k: int| 0 <= k < out@.len() && out@[k] == d[l];
                assert(module_deduped(kept[jj], out@[k]));
            }
        }
    }
    out
}

/// Puts the API in name order and removes duplicates: classes, enums,
/// modules, global fields and global functions sorted by name with the
/// first of each name kept; duplicate fields, methods and functions
/// removed inside classes and modules; helper tables left out.
pub fn dedupe_api(api: &mut LuaApi)
    ensures
        classes_deduped(old(api).classes@, final(api).classes@),
        sorted_unique(old(api).enums@, final(api).enums@),
        modules_deduped(old(api).modules@, final(api).modules@),
        sorted_unique(old(api).global_fields@, final(api).global_fields@),
        sorted_unique(old(api).global_functions@, final(api).global_functions@),
{
    let mut classes: Vec<LuaClass> = Vec::new();
    std::mem::swap(&mut classes, &mut api.classes);
    api.classes = dedupe_classes(classes);
    let mut enums: Vec<LuaEnum> = Vec::new();
    std::mem::swap(&mut enums, &mut api.enums);
    api.enums = sort_unique_by_name(enums);
    let mut modules: Vec<LuaModule> = Vec::new();
    std::mem::swap(&mut modules, &mut api.modules);
    api.modules = dedupe_modules(modules);
    let mut global_fields: Vec<LuaField> = Vec::new();
    std::mem::swap(&mut global_fields, &mut api.global_fields);
    api.global_fields = sort_unique_by_name(global_fields);
    let mut global_functions: Vec<LuaFunction> = Vec::new();
    std::mem::swap(&mut global_functions, &mut api.global_functions);
    api.global_functions = sort_unique_by_name(global_functions);
}

} // verus!
