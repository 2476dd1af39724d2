//! Building union types from branch types (`make_union`).
use vstd::prelude::*;

use crate::text::{ends_with, ends_with_exec, str_eq};
use crate::{ty_clone, ty_eq, tys_view, LuaTy, LuaType};

verus! {

broadcast use vstd::std_specs::vec::group_vec_axioms;

// ── specification ─────────────────────────────────────────────────────

/// What one branch type contributes to the flat list of union members.
pub open spec fn expand_member(t: LuaTy) -> Seq<LuaTy> {
    match t {
        LuaTy::Union(inner) => inner,
        LuaTy::Optional(inner) => seq![*inner, LuaTy::Nil],
        other => seq![other],
    }
}

pub open spec fn flatten_members(types: Seq<LuaTy>) -> Seq<LuaTy>
    decreases types.len(),
{
    if types.len() == 0 {
        Seq::empty()
    } else {
        flatten_members(types.drop_last()) + expand_member(types.last())
    }
}

/// The members of `s` in order, each kept at its first occurrence only.
pub open spec fn dedup(s: Seq<LuaTy>) -> Seq<LuaTy>
    decreases s.len(),
{
    if s.len() == 0 {
        Seq::empty()
    } else {
        let d = dedup(s.drop_last());
        if d.contains(s.last()) {
            d
        } else {
            d.push(s.last())
        }
    }
}

/// Whether some member of `s` satisfies `p`.
pub open spec fn any_member(s: Seq<LuaTy>, p: spec_fn(LuaTy) -> bool) -> bool
    decreases s.len(),
{
    s.len() > 0 && (any_member(s.drop_last(), p) || p(s.last()))
}

/// The members of `s` that satisfy `p`, in order.
pub open spec fn keep_members(s: Seq<LuaTy>, p: spec_fn(LuaTy) -> bool) -> Seq<LuaTy>
    decreases s.len(),
{
    if s.len() == 0 {
        Seq::empty()
    } else if p(s.last()) {
        keep_members(s.drop_last(), p).push(s.last())
    } else {
        keep_members(s.drop_last(), p)
    }
}

pub open spec fn is_generic_ref_name(name: Seq<char>) -> bool {
    name == "UserDataRef"@ || name == "UserDataRefMut"@
}

/// `UserDataRef` and `UserDataRefMut`: references that name no class.
pub open spec fn is_generic_ref(t: LuaTy) -> bool {
    t matches LuaTy::Class(name) && is_generic_ref_name(name)
}

pub open spec fn is_ref_base(base: Seq<char>) -> bool {
    base.len() > 0 && 'A' <= base[0] && base[0] <= 'Z'
}

/// `FileRef` and `FileRefMut` become `File`; other names stay.
pub open spec fn ref_alias_target(name: Seq<char>) -> Seq<char> {
    if is_generic_ref_name(name) {
        name
    } else if ends_with(name, "RefMut"@) && is_ref_base(name.subrange(0, name.len() - 6)) {
        name.subrange(0, name.len() - 6)
    } else if ends_with(name, "Ref"@) && is_ref_base(name.subrange(0, name.len() - 3)) {
        name.subrange(0, name.len() - 3)
    } else {
        name
    }
}

pub open spec fn rename_ref(t: LuaTy) -> LuaTy {
    match t {
        LuaTy::Class(name) => LuaTy::Class(ref_alias_target(name)),
        other => other,
    }
}

pub open spec fn not_generic_nor_nil(t: LuaTy) -> bool {
    !is_generic_ref(t) && !(t is Nil)
}

pub open spec fn pred_generic_ref() -> spec_fn(LuaTy) -> bool {
    |t: LuaTy| is_generic_ref(t)
}

pub open spec fn pred_not_generic_ref() -> spec_fn(LuaTy) -> bool {
    |t: LuaTy| !is_generic_ref(t)
}

pub open spec fn pred_other_than_ref_or_nil() -> spec_fn(LuaTy) -> bool {
    |t: LuaTy| not_generic_nor_nil(t)
}

pub open spec fn pred_concrete() -> spec_fn(LuaTy) -> bool {
    |t: LuaTy| !is_any_or_nil(t)
}

pub open spec fn pred_not_any() -> spec_fn(LuaTy) -> bool {
    |t: LuaTy| !(t is Any)
}

pub open spec fn pred_nil() -> spec_fn(LuaTy) -> bool {
    |t: LuaTy| t is Nil
}

pub open spec fn pred_not_nil() -> spec_fn(LuaTy) -> bool {
    |t: LuaTy| !(t is Nil)
}

pub open spec fn rename_fn() -> spec_fn(LuaTy) -> LuaTy {
    |t: LuaTy| rename_ref(t)
}

/// When a generic userdata reference sits among the members, specific
/// reference aliases are renamed to their class and, if anything but `nil`
/// is left, the generic references are dropped.
pub open spec fn normalize_refs(s: Seq<LuaTy>) -> Seq<LuaTy> {
    if !any_member(s, pred_generic_ref()) {
        s
    } else {
        let d = dedup(s.map_values(rename_fn()));
        if any_member(d, pred_other_than_ref_or_nil()) {
            keep_members(d, pred_not_generic_ref())
        } else {
            d
        }
    }
}

pub open spec fn is_any_or_nil(t: LuaTy) -> bool {
    t is Any || t is Nil
}

/// The union of the branch types `types`: flattened, deduplicated, with
/// `any` absorbed by concrete members and `nil` turned into an optional.
pub open spec fn union_of(types: Seq<LuaTy>) -> LuaTy {
    let seen0 = normalize_refs(dedup(flatten_members(types)));
    let has_concrete = any_member(seen0, pred_concrete());
    let seen1 = if has_concrete {
        keep_members(seen0, pred_not_any())
    } else {
        seen0
    };
    let has_nil = any_member(seen1, pred_nil());
    let seen2 = if has_nil {
        keep_members(seen1, pred_not_nil())
    } else {
        seen1
    };
    if seen2.len() == 0 {
        if has_nil {
            LuaTy::Nil
        } else {
            LuaTy::Any
        }
    } else {
        let base = if seen2.len() == 1 {
            seen2[0]
        } else {
            LuaTy::Union(seen2)
        };
        if has_nil {
            LuaTy::Optional(Box::new(base))
        } else {
            base
        }
    }
}

// ── executable ────────────────────────────────────────────────────────

pub proof fn lemma_take_step<T>(s: Seq<T>, i: int)
    requires
        0 <= i < s.len(),
    ensures
        s.take(i + 1).drop_last() == s.take(i),
        s.take(i + 1).last() == s[i],
        s.take(i + 1).len() == i + 1,
{
    assert(s.take(i + 1).drop_last() =~= s.take(i));
}

/// Whether `ty` is the generic `UserDataRef` or `UserDataRefMut` class.
pub fn is_generic_userdata_ref_type(ty: &LuaType) -> (r: bool)
    ensures
        r == is_generic_ref(ty@),
{
    match ty {
        LuaType::Class(name) => str_eq(name.as_str(), "UserDataRef") || str_eq(
            name.as_str(),
            "UserDataRefMut",
        ),
        _ => false,
    }
}

pub fn any_generic_ref(v: &Vec<LuaType>) -> (r: bool)
    ensures
        r == any_member(tys_view(*v), pred_generic_ref()),
{
    let ghost s = tys_view(*v);
    let ghost p = pred_generic_ref();
    let mut found = false;
    let mut i: usize = 0;
    while i < v.len()
        invariant
            p == pred_generic_ref(),
            s == tys_view(*v),
            i <= v.len(),
            found == any_member(s.take(i as int), p),
        decreases v.len() - i,
    {
        proof { lemma_take_step(s, i as int); }
        found = found || is_generic_userdata_ref_type(&v[i]);
        i += 1;
    }
    assert(s.take(v.len() as int) =~= s);
    found
}

fn push_if_new(d: &mut Vec<LuaType>, t: LuaType)
    ensures
        tys_view(*final(d)) == (if tys_view(*old(d)).contains(t@) {
            tys_view(*old(d))
        } else {
            tys_view(*old(d)).push(t@)
        }),
{
    let ghost s = tys_view(*d);
    let mut j: usize = 0;
    while j < d.len()
        invariant
            s == tys_view(*d),
            j <= d.len(),
            forall|k: int| 0 <= k < j ==> s[k] != t@,
        decreases d.len() - j,
    {
        if ty_eq(&d[j], &t) {
            assert(s[j as int] == t@);
            return;
        }
        j += 1;
    }
    d.push(t);
    assert(tys_view(*d) =~= s.push(t@));
}

/// Deduplicate `v`, keeping first occurrences.
fn dedup_exec(v: Vec<LuaType>) -> (r: Vec<LuaType>)
    ensures
        tys_view(r) == dedup(tys_view(v)),
{
    let ghost s = tys_view(v);
    let mut d: Vec<LuaType> = Vec::new();
    let mut i: usize = 0;
    while i < v.len()
        invariant
            s == tys_view(v),
            i <= v.len(),
            tys_view(d) == dedup(s.take(i as int)),
        decreases v.len() - i,
    {
        proof { lemma_take_step(s, i as int); }
        push_if_new(&mut d, ty_clone(&v[i]));
        i += 1;
    }
    assert(s.take(v.len() as int) =~= s);
    d
}

pub fn rename_ref_exec(t: LuaType) -> (r: LuaType)
    ensures
        r@ == rename_ref(t@),
{
    match t {
        LuaType::Class(name) => {
            let s = name.as_str();
            proof {
                reveal_strlit("RefMut");
                reveal_strlit("Ref");
            }
            if str_eq(s, "UserDataRef") || str_eq(s, "UserDataRefMut") {
                return LuaType::Class(name);
            }
            let n = s.unicode_len();
            if ends_with_exec(s, "RefMut") && n > 6 {
                let c = s.get_char(0);
                assert(s@.subrange(0, n - 6)[0] == s@[0]);
                if 'A' <= c && c <= 'Z' {
                    return LuaType::Class(String::from_str(s.substring_char(0, n - 6)));
                }
            }
            if ends_with_exec(s, "Ref") && n > 3 {
                let c = s.get_char(0);
                assert(s@.subrange(0, n - 3)[0] == s@[0]);
                if 'A' <= c && c <= 'Z' {
                    return LuaType::Class(String::from_str(s.substring_char(0, n - 3)));
                }
            }
            proof {
                assert(name@.len() == n);
            }
            LuaType::Class(name)
        },
        other => other,
    }
}

/// Rewrites the members of a union that hold userdata references: see
/// [`normalize_refs`].
pub fn normalize_userdata_ref_union_items(types: &mut Vec<LuaType>)
    ensures
        tys_view(*final(types)) == normalize_refs(tys_view(*old(types))),
{
    let ghost s = tys_view(*types);
    if !any_generic_ref(types) {
        return;
    }
    let mut taken: Vec<LuaType> = Vec::new();
    std::mem::swap(&mut taken, types);
    let ghost renamed = s.map_values(rename_fn());
    let mut d: Vec<LuaType> = Vec::new();
    let mut i: usize = 0;
    while i < taken.len()
        invariant
            s == tys_view(taken),
            renamed == s.map_values(rename_fn()),
            i <= taken.len(),
            tys_view(d) == dedup(renamed.take(i as int)),
        decreases taken.len() - i,
    {
        proof { lemma_take_step(renamed, i as int); }
        let t = rename_ref_exec(ty_clone(&taken[i]));
        push_if_new(&mut d, t);
        i += 1;
    }
    assert(renamed.take(taken.len() as int) =~= renamed);
    let ghost ds = tys_view(d);
    let ghost p = pred_other_than_ref_or_nil();
    let mut any_other = false;
    let mut k: usize = 0;
    while k < d.len()
        invariant
            p == pred_other_than_ref_or_nil(),
            ds == tys_view(d),
            k <= d.len(),
            any_other == any_member(ds.take(k as int), p),
        decreases d.len() - k,
    {
        proof { lemma_take_step(ds, k as int); }
        let g = is_generic_userdata_ref_type(&d[k]);
        let nil = match &d[k] {
            LuaType::Nil => true,
            _ => false,
        };
        any_other = any_other || (!g && !nil);
        k += 1;
    }
    assert(ds.take(d.len() as int) =~= ds);
    if any_other {
        *types = drop_generic_refs(d);
    } else {
        *types = d;
    }
}

pub fn drop_generic_refs(v: Vec<LuaType>) -> (r: Vec<LuaType>)
    ensures
        tys_view(r) == keep_members(tys_view(v), pred_not_generic_ref()),
{
    let ghost s = tys_view(v);
    let ghost p = pred_not_generic_ref();
    let mut out: Vec<LuaType> = Vec::new();
    let mut i: usize = 0;
    while i < v.len()
        invariant
            p == pred_not_generic_ref(),
            s == tys_view(v),
            i <= v.len(),
            tys_view(out) == keep_members(s.take(i as int), p),
        decreases v.len() - i,
    {
        proof { lemma_take_step(s, i as int); }
        if !is_generic_userdata_ref_type(&v[i]) {
            let ghost before = tys_view(out);
            out.push(ty_clone(&v[i]));
            assert(tys_view(out) =~= before.push(s[i as int]));
        }
        i += 1;
    }
    assert(s.take(v.len() as int) =~= s);
    out
}

fn drop_any(v: Vec<LuaType>) -> (r: Vec<LuaType>)
    ensures
        tys_view(r) == keep_members(tys_view(v), pred_not_any()),
{
    let ghost s = tys_view(v);
    let ghost p = pred_not_any();
    let mut out: Vec<LuaType> = Vec::new();
    let mut i: usize = 0;
    while i < v.len()
        invariant
            p == pred_not_any(),
            s == tys_view(v),
            i <= v.len(),
            tys_view(out) == keep_members(s.take(i as int), p),
        decreases v.len() - i,
    {
        proof { lemma_take_step(s, i as int); }
        let is_any = match &v[i] {
            LuaType::Any => true,
            _ => false,
        };
        if !is_any {
            let ghost before = tys_view(out);
            out.push(ty_clone(&v[i]));
            assert(tys_view(out) =~= before.push(s[i as int]));
        }
        i += 1;
    }
    assert(s.take(v.len() as int) =~= s);
    out
}

fn drop_nil(v: Vec<LuaType>) -> (r: Vec<LuaType>)
    ensures
        tys_view(r) == keep_members(tys_view(v), pred_not_nil()),
{
    let ghost s = tys_view(v);
    let ghost p = pred_not_nil();
    let mut out: Vec<LuaType> = Vec::new();
    let mut i: usize = 0;
    while i < v.len()
        invariant
            p == pred_not_nil(),
            s == tys_view(v),
            i <= v.len(),
            tys_view(out) == keep_members(s.take(i as int), p),
        decreases v.len() - i,
    {
        proof { lemma_take_step(s, i as int); }
        let is_nil = match &v[i] {
            LuaType::Nil => true,
            _ => false,
        };
        if !is_nil {
            let ghost before = tys_view(out);
            out.push(ty_clone(&v[i]));
            assert(tys_view(out) =~= before.push(s[i as int]));
        }
        i += 1;
    }
    assert(s.take(v.len() as int) =~= s);
    out
}

fn append_expansion(flat: &mut Vec<LuaType>, t: &LuaType)
    ensures
        tys_view(*final(flat)) == tys_view(*old(flat)) + expand_member(t@),
{
    let ghost before = tys_view(*flat);
    match t {
        LuaType::Union(inner) => {
            let ghost is = tys_view(*inner);
            let mut k: usize = 0;
            while k < inner.len()
                invariant
                    is == tys_view(*inner),
                    k <= inner.len(),
                    tys_view(*flat) == before + is.take(k as int),
                decreases inner.len() - k,
            {
                let ghost cur = tys_view(*flat);
                flat.push(ty_clone(&inner[k]));
                assert(tys_view(*flat) =~= cur.push(is[k as int]));
                assert(before + is.take(k + 1) =~= (before + is.take(k as int)).push(is[k as int]));
                k += 1;
            }
            assert(is.take(inner.len() as int) =~= is);
        },
        LuaType::Optional(inner) => {
            flat.push(ty_clone(inner));
            let ghost mid = tys_view(*flat);
            assert(mid =~= before.push(inner@));
            flat.push(LuaType::Nil);
            assert(tys_view(*flat) =~= mid.push(LuaTy::Nil));
            assert(tys_view(*flat) =~= before + seq![inner@, LuaTy::Nil]);
        },
        _ => {
            flat.push(ty_clone(t));
            assert(tys_view(*flat) =~= before + seq![t@]);
        },
    }
}

/// Build a union type from collected branch types.
/// Deduplicates, collapses `T | nil` -> `Optional(T)`, and simplifies
/// single-element unions.
pub fn make_union(types: Vec<LuaType>) -> (r: LuaType)
    ensures
        r@ == union_of(tys_view(types)),
{
    let ghost s = tys_view(types);
    let mut flat: Vec<LuaType> = Vec::new();
    let mut i: usize = 0;
    while i < types.len()
        invariant
            s == tys_view(types),
            i <= types.len(),
            tys_view(flat) == flatten_members(s.take(i as int)),
        decreases types.len() - i,
    {
        proof { lemma_take_step(s, i as int); }
        append_expansion(&mut flat, &types[i]);
        i += 1;
    }
    assert(s.take(types.len() as int) =~= s);
    let mut seen = dedup_exec(flat);
    normalize_userdata_ref_union_items(&mut seen);
    let ghost seen0 = tys_view(seen);
    let ghost pc = pred_concrete();
    let mut has_concrete = false;
    let mut k: usize = 0;
    while k < seen.len()
        invariant
            pc == pred_concrete(),
            seen0 == tys_view(seen),
            k <= seen.len(),
            has_concrete == any_member(seen0.take(k as int), pc),
        decreases seen.len() - k,
    {
        proof { lemma_take_step(seen0, k as int); }
        let c = match &seen[k] {
            LuaType::Any | LuaType::Nil => false,
            _ => true,
        };
        has_concrete = has_concrete || c;
        k += 1;
    }
    assert(seen0.take(seen.len() as int) =~= seen0);
    if has_concrete {
        seen = drop_any(seen);
    }
    let ghost seen1 = tys_view(seen);
    let ghost pn = pred_nil();
    let mut has_nil = false;
    let mut k: usize = 0;
    while k < seen.len()
        invariant
            pn == pred_nil(),
            seen1 == tys_view(seen),
            k <= seen.len(),
            has_nil == any_member(seen1.take(k as int), pn),
        decreases seen.len() - k,
    {
        proof { lemma_take_step(seen1, k as int); }
        let c = match &seen[k] {
            LuaType::Nil => true,
            _ => false,
        };
        has_nil = has_nil || c;
        k += 1;
    }
    assert(seen1.take(seen.len() as int) =~= seen1);
    if has_nil {
        seen = drop_nil(seen);
    }
    let ghost seen2 = tys_view(seen);
    assert(seen0 == normalize_refs(dedup(flatten_members(s))));
    assert(seen1 == (if has_concrete { keep_members(seen0, pred_not_any()) } else { seen0 }));
    assert(seen2 == (if has_nil { keep_members(seen1, pred_not_nil()) } else { seen1 }));
    assert(seen2.len() == seen.len());
    if seen.len() == 0 {
        return if has_nil {
            LuaType::Nil
        } else {
            LuaType::Any
        };
    }
    let base = if seen.len() == 1 {
        let b = ty_clone(&seen[0]);
        assert(b@ == seen2[0]);
        b
    } else {
        LuaType::Union(seen)
    };
    assert(base@ == (if seen2.len() == 1 { seen2[0] } else { LuaTy::Union(seen2) }));
    if has_nil {
        let r = LuaType::Optional(Box::new(base));
        assert(r@ == LuaTy::Optional(Box::new(base@)));
        r
    } else {
        base
    }
}

/// The types that the branches gave, in order, leaving out the branches
/// that gave none.
pub open spec fn present_types(arms: Seq<Option<LuaType>>) -> Seq<LuaTy>
    decreases arms.len(),
{
    if arms.len() == 0 {
        Seq::empty()
    } else {
        let rest = present_types(arms.drop_last());
        match arms.last() {
            Some(t) => rest.push(t@),
            None => rest,
        }
    }
}

/// The type of a set of branches: nothing where no branch gave a type,
/// the one type given where one branch gave a type, else the union of the
/// types given (see [`make_union`]).
pub fn union_of_present(arms: Vec<Option<LuaType>>) -> (r: Option<LuaType>)
    ensures
        present_types(arms@).len() == 0 ==> r is None,
        present_types(arms@).len() == 1 ==> (r matches Some(t) && t@ == present_types(arms@)[0]),
        present_types(arms@).len() > 1 ==> (r matches Some(t) && t@ == union_of(present_types(arms@))),
{
    let ghost a = arms@;
    let mut tys: Vec<LuaType> = Vec::new();
    let n = arms.len();
    let mut i: usize = 0;
    while i < n
        invariant
            n == a.len(),
            a == arms@,
            i <= n,
            tys_view(tys) == present_types(a.take(i as int)),
        decreases n - i,
    {
        let ghost before = tys_view(tys);
        proof {
            lemma_take_step(a, i as int);
        }
        match &arms[i] {
            Some(t) => {
                tys.push(ty_clone(t));
                assert(tys_view(tys) =~= before.push(a[i as int]->0@));
            },
            None => {},
        }
        i += 1;
    }
    assert(a.take(n as int) =~= a);
    if tys.len() == 0 {
        None
    } else if tys.len() == 1 {
        let ghost v = tys_view(tys);
        let mut one = tys;
        let t = one.pop().unwrap();
        assert(t@ == v[0]);
        Some(t)
    } else {
        Some(make_union(tys))
    }
}

} // verus!
