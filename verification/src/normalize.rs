//! Normalizing the types of an extracted API: unions rebuilt at every
//! depth, annotation text embedded in class names read back, and class
//! reference aliases renamed to the classes they refer to.
use vstd::prelude::*;

use crate::display::{cmax, cmax_seq, keyword_ty, lemma_cmax_seq_elems, lemma_cmax_seq_le,
    lemma_union_le};
use crate::snippets::{ref_alias_base, ref_alias_base_name};
use crate::text::{
    lemma_split_parts, lemma_trim_len, owned, slices_view, split_top_level, split_top_level_exec,
    trim, trim_exec,
};
use crate::union::{
    any_member, dedup, expand_member, flatten_members, keep_members, make_union, normalize_refs,
    pred_concrete, pred_nil, pred_not_any, pred_not_generic_ref, pred_not_nil,
    rename_fn, rename_ref, union_of,
};
use crate::{
    ty_clone, tys_clone, tys_view, LuaApi, LuaClass, LuaField, LuaFunction, LuaMethod, LuaModule,
    LuaParam, LuaReturn, LuaTy, LuaType,
};

verus! {

broadcast use vstd::std_specs::vec::group_vec_axioms;

// ── the size of a type ────────────────────────────────────────────────

/// The number of nodes of a type.
pub open spec fn ty_size(t: LuaTy) -> nat
    decreases t, 1int,
{
    match t {
        LuaTy::Array(inner) => 1 + ty_size(*inner),
        LuaTy::Optional(inner) => 1 + ty_size(*inner),
        LuaTy::Variadic(inner) => 1 + ty_size(*inner),
        LuaTy::TypedTable(k, v) => 1 + ty_size(*k) + ty_size(*v),
        LuaTy::Union(items) => 1 + tys_size(items),
        LuaTy::FunctionSig { params, returns: rets } => 1 + tys_size(params) + tys_size(rets),
        _ => 1,
    }
}

pub open spec fn tys_size(s: Seq<LuaTy>) -> nat
    decreases s, 0int,
{
    if s.len() == 0 {
        0
    } else {
        tys_size(s.drop_last()) + ty_size(s.last())
    }
}

pub proof fn lemma_size_pos(t: LuaTy)
    ensures
        ty_size(t) >= 1,
{
}

pub proof fn lemma_tys_size_elems(s: Seq<LuaTy>)
    ensures
        forall|i: int| 0 <= i < s.len() ==> ty_size(#[trigger] s[i]) <= tys_size(s),
    decreases s.len(),
{
    if s.len() > 0 {
        lemma_tys_size_elems(s.drop_last());
        assert forall|i: int| 0 <= i < s.len() implies ty_size(#[trigger] s[i]) <= tys_size(s) by {
            if i < s.len() - 1 {
                assert(s[i] == s.drop_last()[i]);
            }
        }
    }
}

pub proof fn lemma_tys_size_concat(a: Seq<LuaTy>, b: Seq<LuaTy>)
    ensures
        tys_size(a + b) == tys_size(a) + tys_size(b),
    decreases b.len(),
{
    if b.len() > 0 {
        assert((a + b).drop_last() =~= a + b.drop_last());
        lemma_tys_size_concat(a, b.drop_last());
    } else {
        assert(a + b =~= a);
    }
}

proof fn lemma_tys_size_one(x: LuaTy)
    ensures
        tys_size(seq![x]) == ty_size(x),
{
    let s = seq![x];
    assert(s.drop_last() =~= Seq::<LuaTy>::empty());
    assert(tys_size(Seq::<LuaTy>::empty()) == 0);
    assert(s.last() == x);
}

proof fn lemma_expand_size(t: LuaTy)
    ensures
        tys_size(expand_member(t)) <= ty_size(t),
{
    match t {
        LuaTy::Union(inner) => {
            assert(expand_member(t) == inner);
            assert(ty_size(t) == 1 + tys_size(inner));
        },
        LuaTy::Optional(inner) => {
            let e = seq![*inner, LuaTy::Nil];
            assert(expand_member(t) == e);
            assert(e.drop_last() =~= seq![*inner]);
            lemma_tys_size_one(*inner);
            assert(ty_size(LuaTy::Nil) == 1);
            assert(tys_size(e) == ty_size(*inner) + 1);
        },
        _ => {
            assert(expand_member(t) == seq![t]);
            lemma_tys_size_one(t);
        },
    }
}

proof fn lemma_flatten_size(xs: Seq<LuaTy>)
    ensures
        tys_size(flatten_members(xs)) <= tys_size(xs),
    decreases xs.len(),
{
    if xs.len() > 0 {
        lemma_flatten_size(xs.drop_last());
        lemma_expand_size(xs.last());
        lemma_tys_size_concat(flatten_members(xs.drop_last()), expand_member(xs.last()));
    }
}

proof fn lemma_dedup_size(s: Seq<LuaTy>)
    ensures
        tys_size(dedup(s)) <= tys_size(s),
    decreases s.len(),
{
    if s.len() > 0 {
        lemma_dedup_size(s.drop_last());
        let d = dedup(s.drop_last());
        assert(d.push(s.last()).drop_last() =~= d);
    }
}

proof fn lemma_keep_size(s: Seq<LuaTy>, p: spec_fn(LuaTy) -> bool)
    ensures
        tys_size(keep_members(s, p)) <= tys_size(s),
    decreases s.len(),
{
    if s.len() > 0 {
        lemma_keep_size(s.drop_last(), p);
        let d = keep_members(s.drop_last(), p);
        assert(d.push(s.last()).drop_last() =~= d);
    }
}

/// Dropping the `nil` members of a list that has one makes it smaller.
proof fn lemma_drop_nil_size(s: Seq<LuaTy>)
    requires
        any_member(s, pred_nil()),
    ensures
        tys_size(keep_members(s, pred_not_nil())) < tys_size(s),
    decreases s.len(),
{
    let d = keep_members(s.drop_last(), pred_not_nil());
    lemma_size_pos(s.last());
    if any_member(s.drop_last(), pred_nil()) {
        lemma_drop_nil_size(s.drop_last());
    } else {
        lemma_keep_size(s.drop_last(), pred_not_nil());
        assert(s.last() is Nil);
    }
    if !(s.last() is Nil) {
        assert(keep_members(s, pred_not_nil()) == d.push(s.last()));
        assert(d.push(s.last()).drop_last() =~= d);
    } else {
        assert(keep_members(s, pred_not_nil()) == d);
    }
}

proof fn lemma_rename_map_size(s: Seq<LuaTy>)
    ensures
        tys_size(s.map_values(rename_fn())) == tys_size(s),
    decreases s.len(),
{
    if s.len() > 0 {
        let m = s.map_values(rename_fn());
        assert(m.drop_last() =~= s.drop_last().map_values(rename_fn()));
        lemma_rename_map_size(s.drop_last());
        let t = s.last();
        assert(m.last() == rename_ref(t));
        assert(ty_size(rename_ref(t)) == ty_size(t)) by {
            if let LuaTy::Class(name) = t {
                assert(rename_ref(t) is Class);
            }
        }
        assert(tys_size(m) == tys_size(m.drop_last()) + ty_size(m.last()));
    }
}

proof fn lemma_normalize_refs_size(s: Seq<LuaTy>)
    ensures
        tys_size(normalize_refs(s)) <= tys_size(s),
{
    let m = s.map_values(rename_fn());
    lemma_rename_map_size(s);
    lemma_dedup_size(m);
    lemma_keep_size(dedup(m), pred_not_generic_ref());
}

/// A union built from `xs` is no larger than the union node over `xs`.
pub proof fn lemma_union_size(xs: Seq<LuaTy>)
    ensures
        ty_size(union_of(xs)) <= 1 + tys_size(xs),
{
    lemma_flatten_size(xs);
    lemma_dedup_size(flatten_members(xs));
    let seen0 = normalize_refs(dedup(flatten_members(xs)));
    lemma_normalize_refs_size(dedup(flatten_members(xs)));
    lemma_keep_size(seen0, pred_not_any());
    let seen1 = if any_member(seen0, pred_concrete()) {
        keep_members(seen0, pred_not_any())
    } else {
        seen0
    };
    let has_nil = any_member(seen1, pred_nil());
    let seen2 = if has_nil {
        keep_members(seen1, pred_not_nil())
    } else {
        seen1
    };
    if has_nil {
        lemma_drop_nil_size(seen1);
    }
    assert(tys_size(seen1) <= tys_size(xs));
    assert(has_nil ==> tys_size(seen2) + 1 <= tys_size(seen1));
    assert(tys_size(seen2) <= tys_size(seen1));
    if seen2.len() > 1 {
        assert(ty_size(LuaTy::Union(seen2)) == 1 + tys_size(seen2));
        assert(union_of(xs) == (if has_nil {
            LuaTy::Optional(Box::new(LuaTy::Union(seen2)))
        } else {
            LuaTy::Union(seen2)
        }));
    } else if seen2.len() == 1 {
        lemma_tys_size_elems(seen2);
        assert(union_of(xs) == (if has_nil {
            LuaTy::Optional(Box::new(seen2[0]))
        } else {
            seen2[0]
        }));
    } else {
        assert(union_of(xs) == (if has_nil {
            LuaTy::Nil
        } else {
            LuaTy::Any
        }));
    }
}

// ── rebuilding unions at every depth ─────────────────────────────────

/// `t` with each union, from the outside in, rebuilt by [`union_of`] from
/// its members, and the members of the result treated likewise.
pub open spec fn unions_merged(t: LuaTy) -> LuaTy
    decreases ty_size(t), 1int,
{
    match t {
        LuaTy::Union(items) => {
            proof {
                lemma_union_size(items);
            }
            children_merged(union_of(items))
        },
        _ => children_merged(t),
    }
}

/// `u` with [`unions_merged`] applied to each of its direct members.
pub open spec fn children_merged(u: LuaTy) -> LuaTy
    decreases ty_size(u), 0int,
{
    match u {
        LuaTy::Array(inner) => LuaTy::Array(Box::new(unions_merged(*inner))),
        LuaTy::Optional(inner) => LuaTy::Optional(Box::new(unions_merged(*inner))),
        LuaTy::Variadic(inner) => LuaTy::Variadic(Box::new(unions_merged(*inner))),
        LuaTy::TypedTable(k, v) => LuaTy::TypedTable(
            Box::new(unions_merged(*k)),
            Box::new(unions_merged(*v)),
        ),
        LuaTy::Union(items) => LuaTy::Union(unions_merged_seq(items)),
        LuaTy::FunctionSig { params, returns: rets } => LuaTy::FunctionSig {
            params: unions_merged_seq(params),
            returns: unions_merged_seq(rets),
        },
        other => other,
    }
}

pub open spec fn unions_merged_seq(s: Seq<LuaTy>) -> Seq<LuaTy>
    decreases tys_size(s), 2int,
{
    proof {
        lemma_tys_size_elems(s);
    }
    Seq::new(
        s.len(),
        |i: int|
            if 0 <= i < s.len() {
                unions_merged(s[i])
            } else {
                LuaTy::Nil
            },
    )
}

fn merged_unions(t: &LuaType) -> (r: LuaType)
    ensures
        r@ == unions_merged(t@),
    decreases ty_size(t@), 1int,
{
    match t {
        LuaType::Union(items) => {
            proof {
                lemma_union_size(tys_view(*items));
            }
            let u = make_union(tys_clone(items));
            merged_children(&u)
        },
        _ => merged_children(t),
    }
}

fn merged_children(u: &LuaType) -> (r: LuaType)
    ensures
        r@ == children_merged(u@),
    decreases ty_size(u@), 0int,
{
    match u {
        LuaType::Array(inner) => LuaType::Array(Box::new(merged_unions(inner))),
        LuaType::Optional(inner) => LuaType::Optional(Box::new(merged_unions(inner))),
        LuaType::Variadic(inner) => LuaType::Variadic(Box::new(merged_unions(inner))),
        LuaType::TypedTable(k, v) => LuaType::TypedTable(
            Box::new(merged_unions(k)),
            Box::new(merged_unions(v)),
        ),
        LuaType::Union(items) => LuaType::Union(merged_vec(items)),
        LuaType::FunctionSig { params, returns: rets } => LuaType::FunctionSig {
            params: merged_vec(params),
            returns: merged_vec(rets),
        },
        _ => ty_clone(u),
    }
}

fn merged_vec(v: &Vec<LuaType>) -> (r: Vec<LuaType>)
    ensures
        tys_view(r) == unions_merged_seq(tys_view(*v)),
    decreases tys_size(tys_view(*v)), 2int,
{
    let ghost s = tys_view(*v);
    proof {
        lemma_tys_size_elems(s);
    }
    let mut out: Vec<LuaType> = Vec::new();
    let mut i: usize = 0;
    while i < v.len()
        invariant
            s == tys_view(*v),
            forall|j: int| 0 <= j < s.len() ==> ty_size(#[trigger] s[j]) <= tys_size(s),
            i <= v.len(),
            out.len() == i,
            forall|j: int| 0 <= j < i ==> out[j]@ == unions_merged(v[j]@),
        decreases v.len() - i,
    {
        assert(s[i as int] == v[i as int]@);
        out.push(merged_unions(&v[i]));
        i += 1;
    }
    assert(tys_view(out) =~= unions_merged_seq(s));
    out
}

/// Rebuilding unions never makes a class name longer.
pub proof fn lemma_merged_cmax(t: LuaTy)
    ensures
        cmax(unions_merged(t)) <= cmax(t),
    decreases ty_size(t), 1int,
{
    match t {
        LuaTy::Union(items) => {
            lemma_union_size(items);
            lemma_cmax_seq_elems(items);
            lemma_union_le(items, cmax_seq(items));
            lemma_children_cmax(union_of(items));
        },
        _ => {
            lemma_children_cmax(t);
        },
    }
}

proof fn lemma_children_cmax(u: LuaTy)
    ensures
        cmax(children_merged(u)) <= cmax(u),
    decreases ty_size(u), 0int,
{
    match u {
        LuaTy::Array(inner) => lemma_merged_cmax(*inner),
        LuaTy::Optional(inner) => lemma_merged_cmax(*inner),
        LuaTy::Variadic(inner) => lemma_merged_cmax(*inner),
        LuaTy::TypedTable(k, v) => {
            lemma_merged_cmax(*k);
            lemma_merged_cmax(*v);
        },
        LuaTy::Union(items) => lemma_merged_seq_cmax(items),
        LuaTy::FunctionSig { params, returns: rets } => {
            lemma_merged_seq_cmax(params);
            lemma_merged_seq_cmax(rets);
        },
        _ => {},
    }
}

proof fn lemma_merged_seq_cmax(s: Seq<LuaTy>)
    ensures
        cmax_seq(unions_merged_seq(s)) <= cmax_seq(s),
    decreases tys_size(s), 2int,
{
    lemma_tys_size_elems(s);
    lemma_cmax_seq_elems(s);
    let m = unions_merged_seq(s);
    assert forall|i: int| 0 <= i < m.len() implies cmax(#[trigger] m[i]) <= cmax_seq(s) by {
        lemma_merged_cmax(s[i]);
    }
    lemma_cmax_seq_le(m, cmax_seq(s));
}

// ── union annotation text in class names ─────────────────────────────

/// The union that annotation text `a | b | ...` in a class name denotes,
/// each part a built-in type or a class name; none when the text has no
/// top-level `|`.
pub open spec fn flat_union_text(name: Seq<char>) -> Option<LuaTy> {
    let parts = split_top_level(trim(name), '|');
    if parts.len() > 1 {
        Some(union_of(Seq::new(parts.len(), |i: int| keyword_ty(trim(parts[i])))))
    } else {
        None
    }
}

pub proof fn lemma_flat_union_bound(name: Seq<char>)
    ensures
        flat_union_text(name) matches Some(p) ==> cmax(p) < name.len(),
{
    let t = trim(name);
    lemma_trim_len(name);
    let parts = split_top_level(t, '|');
    lemma_split_parts(t, '|');
    if parts.len() > 1 {
        let atoms = Seq::new(parts.len(), |i: int| keyword_ty(trim(parts[i])));
        let k = (t.len() - 1) as nat;
        assert forall|i: int| 0 <= i < atoms.len() implies cmax(#[trigger] atoms[i]) <= k by {
            lemma_trim_len(parts[i]);
            assert(parts[i].len() < t.len());
        }
        lemma_union_le(atoms, k);
    }
}

fn keyword_ty_exec(t: &str) -> (r: LuaType)
    ensures
        r@ == keyword_ty(t@),
{
    if crate::text::str_eq(t, "nil") {
        LuaType::Nil
    } else if crate::text::str_eq(t, "boolean") {
        LuaType::Boolean
    } else if crate::text::str_eq(t, "integer") {
        LuaType::Integer
    } else if crate::text::str_eq(t, "number") {
        LuaType::Number
    } else if crate::text::str_eq(t, "string") {
        LuaType::String
    } else if crate::text::str_eq(t, "table") {
        LuaType::Table
    } else if crate::text::str_eq(t, "function") {
        LuaType::Function
    } else if crate::text::str_eq(t, "any") {
        LuaType::Any
    } else if crate::text::str_eq(t, "thread") {
        LuaType::Thread
    } else {
        LuaType::Class(owned(t))
    }
}

/// Reads union annotation text embedded in a class name (see
/// [`flat_union_text`]).
pub fn parse_embedded_lua_type_text(text: &str) -> (r: Option<LuaType>)
    ensures
        opt_view(r) == flat_union_text(text@),
{
    let t = trim_exec(text);
    let parts = split_top_level_exec(t, '|');
    if parts.len() <= 1 {
        return None;
    }
    let ghost ps = slices_view(parts@);
    let mut atoms: Vec<LuaType> = Vec::new();
    let mut i: usize = 0;
    while i < parts.len()
        invariant
            ps == slices_view(parts@),
            i <= parts.len(),
            atoms.len() == i,
            forall|j: int| 0 <= j < i ==> atoms[j]@ == keyword_ty(trim(ps[j])),
        decreases parts.len() - i,
    {
        atoms.push(keyword_ty_exec(trim_exec(parts[i])));
        i += 1;
    }
    assert(tys_view(atoms) =~= Seq::new(ps.len(), |i: int| keyword_ty(trim(ps[i]))));
    Some(make_union(atoms))
}

pub open spec fn opt_view(o: Option<LuaType>) -> Option<LuaTy> {
    match o {
        Some(t) => Some(t@),
        None => None,
    }
}

// ── normalizing API types ─────────────────────────────────────────────

/// A class named by union annotation text becomes that union; otherwise a
/// reference alias to a class not among `known` names becomes the class.
pub open spec fn api_first_step(t: LuaTy, known: Seq<Seq<char>>) -> LuaTy {
    match t {
        LuaTy::Class(name) => match flat_union_text(name) {
            Some(p) => p,
            None => match ref_alias_base(name, known) {
                Some(b) => LuaTy::Class(b),
                None => t,
            },
        },
        _ => t,
    }
}

/// The normalized form of a type of the API: the first step above, unions
/// rebuilt at every depth, and, where the result is a class named by union
/// annotation text, the normalized form of that union.
pub open spec fn api_normalized(t: LuaTy, known: Seq<Seq<char>>) -> LuaTy
    decreases cmax(t),
{
    let t1 = api_first_step(t, known);
    let t2 = unions_merged(t1);
    match t2 {
        LuaTy::Class(name) => match flat_union_text(name) {
            Some(p) => {
                proof {
                    lemma_first_step_cmax(t, known);
                    lemma_merged_cmax(t1);
                    lemma_flat_union_bound(name);
                }
                api_normalized(p, known)
            },
            None => t2,
        },
        _ => t2,
    }
}

pub proof fn lemma_first_step_cmax(t: LuaTy, known: Seq<Seq<char>>)
    ensures
        cmax(api_first_step(t, known)) <= cmax(t),
{
    reveal_strlit("RefMut");
    reveal_strlit("Ref");
    if let LuaTy::Class(name) = t {
        lemma_flat_union_bound(name);
    }
}

fn api_normalized_exec(t: LuaType, known_names: &[String]) -> (r: LuaType)
    ensures
        r@ == api_normalized(t@, crate::driver::texts(known_names@)),
    decreases cmax(t@),
{
    let ghost known = crate::driver::texts(known_names@);
    let ghost t0 = t@;
    let t1 = match t {
        LuaType::Class(name) => {
            match parse_embedded_lua_type_text(name.as_str()) {
                Some(p) => p,
                None => match ref_alias_base_name(name.as_str(), known_names) {
                    Some(b) => LuaType::Class(b),
                    None => LuaType::Class(name),
                },
            }
        },
        other => other,
    };
    assert(t1@ == api_first_step(t0, known));
    let t2 = merged_unions(&t1);
    match t2 {
        LuaType::Class(name) => {
            match parse_embedded_lua_type_text(name.as_str()) {
                Some(p) => {
                    proof {
                        lemma_first_step_cmax(t0, known);
                        lemma_merged_cmax(t1@);
                        lemma_flat_union_bound(name@);
                    }
                    api_normalized_exec(p, known_names)
                },
                None => LuaType::Class(name),
            }
        },
        other => other,
    }
}

/// Normalizes a type of the extracted API (see [`api_normalized`]); the
/// known class, enum and module names are never read as reference aliases.
pub fn normalize_api_lua_type(ty: &mut LuaType, known_names: &[String])
    ensures
        final(ty)@ == api_normalized(old(ty)@, crate::driver::texts(known_names@)),
{
    let mut t = LuaType::Nil;
    std::mem::swap(&mut t, ty);
    *ty = api_normalized_exec(t, known_names);
}

// ── the whole API ─────────────────────────────────────────────────────

pub open spec fn field_normalized(o: LuaField, n: LuaField, known: Seq<Seq<char>>) -> bool {
    &&& n.name == o.name
    &&& n.writable == o.writable
    &&& n.doc == o.doc
    &&& n.ty@ == api_normalized(o.ty@, known)
}

pub open spec fn fields_normalized(o: Seq<LuaField>, n: Seq<LuaField>, known: Seq<Seq<char>>) -> bool {
    &&& n.len() == o.len()
    &&& forall|j: int| 0 <= j < o.len() ==> #[trigger] field_normalized(o[j], n[j], known)
}

pub open spec fn params_normalized(o: Seq<LuaParam>, n: Seq<LuaParam>, known: Seq<Seq<char>>) -> bool {
    &&& n.len() == o.len()
    &&& forall|j: int|
        0 <= j < o.len() ==> (#[trigger] n[j]).name == o[j].name && n[j].ty@ == api_normalized(
            o[j].ty@,
            known,
        )
}

pub open spec fn returns_normalized(o: Seq<LuaReturn>, n: Seq<LuaReturn>, known: Seq<Seq<char>>) -> bool {
    &&& n.len() == o.len()
    &&& forall|j: int|
        0 <= j < o.len() ==> (#[trigger] n[j]).name == o[j].name && n[j].ty@ == api_normalized(
            o[j].ty@,
            known,
        )
}

pub open spec fn method_normalized(o: LuaMethod, n: LuaMethod, known: Seq<Seq<char>>) -> bool {
    &&& n.name == o.name
    &&& n.kind == o.kind
    &&& n.is_async == o.is_async
    &&& n.doc == o.doc
    &&& params_normalized(o.params@, n.params@, known)
    &&& returns_normalized(o.returns@, n.returns@, known)
}

pub open spec fn function_normalized(o: LuaFunction, n: LuaFunction, known: Seq<Seq<char>>) -> bool {
    &&& n.name == o.name
    &&& n.is_async == o.is_async
    &&& n.doc == o.doc
    &&& params_normalized(o.params@, n.params@, known)
    &&& returns_normalized(o.returns@, n.returns@, known)
}

pub open spec fn class_normalized(o: LuaClass, n: LuaClass, known: Seq<Seq<char>>) -> bool {
    &&& n.name == o.name
    &&& n.doc == o.doc
    &&& fields_normalized(o.fields@, n.fields@, known)
    &&& n.methods@.len() == o.methods@.len()
    &&& forall|j: int|
        0 <= j < o.methods@.len() ==> #[trigger] method_normalized(
            o.methods@[j],
            n.methods@[j],
            known,
        )
}

pub open spec fn module_normalized(o: LuaModule, n: LuaModule, known: Seq<Seq<char>>) -> bool {
    &&& n.name == o.name
    &&& n.doc == o.doc
    &&& fields_normalized(o.fields@, n.fields@, known)
    &&& n.functions@.len() == o.functions@.len()
    &&& forall|j: int|
        0 <= j < o.functions@.len() ==> #[trigger] function_normalized(
            o.functions@[j],
            n.functions@[j],
            known,
        )
}

/// The names of the API's classes, enums and modules, in that order.
pub open spec fn api_known_names(api: LuaApi) -> Seq<Seq<char>> {
    Seq::new(api.classes@.len(), |i: int| api.classes@[i].name@) + Seq::new(
        api.enums@.len(),
        |i: int| api.enums@[i].name@,
    ) + Seq::new(api.modules@.len(), |i: int| api.modules@[i].name@)
}

/// Every type of `n` is the normalized form of the type at the same place
/// in `o`, under the names `known`; everything else is unchanged.
pub open spec fn api_normalized_from(o: LuaApi, n: LuaApi, known: Seq<Seq<char>>) -> bool {
    &&& n.enums == o.enums
    &&& n.classes@.len() == o.classes@.len()
    &&& forall|i: int|
        0 <= i < o.classes@.len() ==> #[trigger] class_normalized(
            o.classes@[i],
            n.classes@[i],
            known,
        )
    &&& n.modules@.len() == o.modules@.len()
    &&& forall|i: int|
        0 <= i < o.modules@.len() ==> #[trigger] module_normalized(
            o.modules@[i],
            n.modules@[i],
            known,
        )
    &&& fields_normalized(o.global_fields@, n.global_fields@, known)
    &&& n.global_functions@.len() == o.global_functions@.len()
    &&& forall|i: int|
        0 <= i < o.global_functions@.len() ==> #[trigger] function_normalized(
            o.global_functions@[i],
            n.global_functions@[i],
            known,
        )
}

fn normalize_fields(fields: &mut Vec<LuaField>, known: &[String])
    ensures
        fields_normalized(old(fields)@, final(fields)@, crate::driver::texts(known@)),
{
    let ghost k = crate::driver::texts(known@);
    let ghost o = fields@;
    let mut i: usize = 0;
    while i < fields.len()
        invariant
            k == crate::driver::texts(known@),
            i <= fields.len(),
            fields@.len() == o.len(),
            forall|j: int| 0 <= j < i ==> #[trigger] field_normalized(o[j], fields@[j], k),
            forall|j: int| i <= j < o.len() ==> #[trigger] fields@[j] == o[j],
        decreases fields.len() - i,
    {
        normalize_api_lua_type(&mut fields[i].ty, known);
        i += 1;
    }
}

fn normalize_params(params: &mut Vec<LuaParam>, known: &[String])
    ensures
        params_normalized(old(params)@, final(params)@, crate::driver::texts(known@)),
{
    let ghost k = crate::driver::texts(known@);
    let ghost o = params@;
    let mut i: usize = 0;
    while i < params.len()
        invariant
            k == crate::driver::texts(known@),
            i <= params.len(),
            params@.len() == o.len(),
            forall|j: int|
                0 <= j < i ==> (#[trigger] params@[j]).name == o[j].name && params@[j].ty@
                    == api_normalized(o[j].ty@, k),
            forall|j: int| i <= j < o.len() ==> #[trigger] params@[j] == o[j],
        decreases params.len() - i,
    {
        normalize_api_lua_type(&mut params[i].ty, known);
        i += 1;
    }
}

fn normalize_returns(rets: &mut Vec<LuaReturn>, known: &[String])
    ensures
        returns_normalized(old(rets)@, final(rets)@, crate::driver::texts(known@)),
{
    let ghost k = crate::driver::texts(known@);
    let ghost o = rets@;
    let mut i: usize = 0;
    while i < rets.len()
        invariant
            k == crate::driver::texts(known@),
            i <= rets.len(),
            rets@.len() == o.len(),
            forall|j: int|
                0 <= j < i ==> (#[trigger] rets@[j]).name == o[j].name && rets@[j].ty@
                    == api_normalized(o[j].ty@, k),
            forall|j: int| i <= j < o.len() ==> #[trigger] rets@[j] == o[j],
        decreases rets.len() - i,
    {
        normalize_api_lua_type(&mut rets[i].ty, known);
        i += 1;
    }
}

fn normalize_methods(methods: &mut Vec<LuaMethod>, known: &[String])
    ensures
        final(methods)@.len() == old(methods)@.len(),
        forall|j: int|
            0 <= j < old(methods)@.len() ==> #[trigger] method_normalized(
                old(methods)@[j],
                final(methods)@[j],
                crate::driver::texts(known@),
            ),
{
    let ghost k = crate::driver::texts(known@);
    let ghost o = methods@;
    let mut i: usize = 0;
    while i < methods.len()
        invariant
            k == crate::driver::texts(known@),
            i <= methods.len(),
            methods@.len() == o.len(),
            forall|j: int| 0 <= j < i ==> #[trigger] method_normalized(o[j], methods@[j], k),
            forall|j: int| i <= j < o.len() ==> #[trigger] methods@[j] == o[j],
        decreases methods.len() - i,
    {
        normalize_params(&mut methods[i].params, known);
        normalize_returns(&mut methods[i].returns, known);
        i += 1;
    }
}

fn normalize_functions(functions: &mut Vec<LuaFunction>, known: &[String])
    ensures
        final(functions)@.len() == old(functions)@.len(),
        forall|j: int|
            0 <= j < old(functions)@.len() ==> #[trigger] function_normalized(
                old(functions)@[j],
                final(functions)@[j],
                crate::driver::texts(known@),
            ),
{
    let ghost k = crate::driver::texts(known@);
    let ghost o = functions@;
    let mut i: usize = 0;
    while i < functions.len()
        invariant
            k == crate::driver::texts(known@),
            i <= functions.len(),
            functions@.len() == o.len(),
            forall|j: int| 0 <= j < i ==> #[trigger] function_normalized(o[j], functions@[j], k),
            forall|j: int| i <= j < o.len() ==> #[trigger] functions@[j] == o[j],
        decreases functions.len() - i,
    {
        normalize_params(&mut functions[i].params, known);
        normalize_returns(&mut functions[i].returns, known);
        i += 1;
    }
}

fn normalize_classes(classes: &mut Vec<LuaClass>, known: &[String])
    ensures
        final(classes)@.len() == old(classes)@.len(),
        forall|j: int|
            0 <= j < old(classes)@.len() ==> #[trigger] class_normalized(
                old(classes)@[j],
                final(classes)@[j],
                crate::driver::texts(known@),
            ),
{
    let ghost k = crate::driver::texts(known@);
    let ghost o = classes@;
    let mut i: usize = 0;
    while i < classes.len()
        invariant
            k == crate::driver::texts(known@),
            i <= classes.len(),
            classes@.len() == o.len(),
            forall|j: int| 0 <= j < i ==> #[trigger] class_normalized(o[j], classes@[j], k),
            forall|j: int| i <= j < o.len() ==> #[trigger] classes@[j] == o[j],
        decreases classes.len() - i,
    {
        normalize_fields(&mut classes[i].fields, known);
        normalize_methods(&mut classes[i].methods, known);
        i += 1;
    }
}

fn normalize_modules(modules: &mut Vec<LuaModule>, known: &[String])
    ensures
        final(modules)@.len() == old(modules)@.len(),
        forall|j: int|
            0 <= j < old(modules)@.len() ==> #[trigger] module_normalized(
                old(modules)@[j],
                final(modules)@[j],
                crate::driver::texts(known@),
            ),
{
    let ghost k = crate::driver::texts(known@);
    let ghost o = modules@;
    let mut i: usize = 0;
    while i < modules.len()
        invariant
            k == crate::driver::texts(known@),
            i <= modules.len(),
            modules@.len() == o.len(),
            forall|j: int| 0 <= j < i ==> #[trigger] module_normalized(o[j], modules@[j], k),
            forall|j: int| i <= j < o.len() ==> #[trigger] modules@[j] == o[j],
        decreases modules.len() - i,
    {
        normalize_fields(&mut modules[i].fields, known);
        normalize_functions(&mut modules[i].functions, known);
        i += 1;
    }
}

fn known_names_of(api: &LuaApi) -> (r: Vec<String>)
    ensures
        crate::driver::texts(r@) == api_known_names(*api),
{
    let ghost k = api_known_names(*api);
    let nc = api.classes.len();
    let ne = api.enums.len();
    let mut names: Vec<String> = Vec::new();
    let mut i: usize = 0;
    while i < nc
        invariant
            nc == api.classes@.len(),
            k == api_known_names(*api),
            i <= nc,
            names@.len() == i,
            forall|j: int| 0 <= j < i ==> (#[trigger] names@[j])@ == k[j],
        decreases nc - i,
    {
        names.push(owned(api.classes[i].name.as_str()));
        i += 1;
    }
    let mut i: usize = 0;
    while i < ne
        invariant
            nc == api.classes@.len(),
            ne == api.enums@.len(),
            k == api_known_names(*api),
            i <= ne,
            names@.len() == nc + i,
            forall|j: int| 0 <= j < nc + i ==> (#[trigger] names@[j])@ == k[j],
        decreases ne - i,
    {
        names.push(owned(api.enums[i].name.as_str()));
        i += 1;
    }
    let mut i: usize = 0;
    while i < api.modules.len()
        invariant
            nc == api.classes@.len(),
            ne == api.enums@.len(),
            k == api_known_names(*api),
            i <= api.modules@.len(),
            names@.len() == nc + ne + i,
            forall|j: int| 0 <= j < nc + ne + i ==> (#[trigger] names@[j])@ == k[j],
        decreases api.modules.len() - i,
    {
        names.push(owned(api.modules[i].name.as_str()));
        i += 1;
    }
    assert(crate::driver::texts(names@) =~= k);
    names
}

/// Normalizes every type of the API (see [`api_normalized`]), with the
/// names of its classes, enums and modules as the known names.
pub fn normalize_api_types(api: &mut LuaApi)
    ensures
        api_normalized_from(*old(api), *final(api), api_known_names(*old(api))),
{
    let known = known_names_of(api);
    normalize_classes(&mut api.classes, known.as_slice());
    normalize_modules(&mut api.modules, known.as_slice());
    normalize_fields(&mut api.global_fields, known.as_slice());
    normalize_functions(&mut api.global_functions, known.as_slice());
}

} // verus!
