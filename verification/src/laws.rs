//! Properties that hold of the library as a whole.
use vstd::prelude::*;

use crate::assemble::{
    key_seen, kept_firsts, lemma_kept_keys, lemma_module_index, lemma_text_lt_asymmetric,
    lemma_text_lt_irreflexive, lemma_text_lt_total, lemma_text_lt_transitive, module_index,
    module_upserted, name_key, sorted_unique, text_lt, ModuleView, Named,
};
use crate::codegen::{
    any_param_kept, is_error_type, return_ann_text, class_header_text, class_text, classes_text, enum_text, enums_text, fields_text,
    global_field_text, global_fields_text, global_function_text, global_functions_text, methods_text,
    module_text, modules_text,
    param_ann_text, param_name_text, params_ann_text, params_str_text, stubs_text,
};
use crate::text::{
    before_first, lemma_find_sound, lemma_rfind_upto_none, lemma_rfind_upto_some, matches_at, rfind,
};
use crate::driver::{compiler_args, flag_value, names_sysroot, without_flag, without_prefixed};
use crate::normalize::{api_normalized, flat_union_text, lemma_first_step_cmax, lemma_flat_union_bound,
    lemma_merged_cmax, api_first_step, unions_merged};
use crate::text::starts_with;
use crate::union::{
    any_member, dedup, expand_member, flatten_members, is_generic_ref, keep_members,
    normalize_refs, pred_concrete, pred_generic_ref, pred_nil, pred_not_any, pred_not_generic_ref,
    pred_not_nil, pred_other_than_ref_or_nil, ref_alias_target, rename_fn, rename_ref, union_of,
};
use crate::display::{parse_atom, parse_embedded, ty_text};
use crate::reparse::{lemma_reparse, simple_ty, word_ty};
use crate::refine::{meta_name, name_view, value_variant_ty};
use crate::assemble::{field_key, function_key, method_key};
use crate::launcher::{launcher_parse, parsed_from};
use crate::registry::{children_of, is_chain, lemma_chain_start, marked, nested_at, reaches};
use crate::{
    LuaMethod, LuaReturn, CodegenTarget, LuaApi, LuaClass, LuaEnum, LuaField, LuaFunction, LuaModule, LuaParam, LuaTy,
};

verus! {

// ── unions ────────────────────────────────────────────────────────────

proof fn lemma_one(t: LuaTy)
    ensures
        seq![t].drop_last() == Seq::<LuaTy>::empty(),
        seq![t].last() == t,
{
    assert(seq![t].drop_last() =~= Seq::<LuaTy>::empty());
}

/// A union of one branch is that branch, unless the branch is itself a
/// union or optional.
pub proof fn law_single_branch_union(t: LuaTy)
    requires
        !(t is Union),
        !(t is Optional),
    ensures
        union_of(seq![t]) == t,
{
    let s = seq![t];
    lemma_one(t);
    assert(expand_member(t) == s);
    assert(flatten_members(s) == flatten_members(Seq::<LuaTy>::empty()) + s);
    assert(flatten_members(s) =~= s);
    assert(dedup(s) =~= s) by {
        assert(dedup(Seq::<LuaTy>::empty()) =~= Seq::<LuaTy>::empty());
        assert(!Seq::<LuaTy>::empty().contains(t));
        assert(Seq::<LuaTy>::empty().push(t) =~= s);
    }
    assert(!any_member(Seq::<LuaTy>::empty(), pred_generic_ref()));
    assert(!any_member(Seq::<LuaTy>::empty(), pred_other_than_ref_or_nil()));
    assert((pred_generic_ref())(t) == is_generic_ref(t));
    assert(normalize_refs(s) == s) by {
        if any_member(s, pred_generic_ref()) {
            assert(is_generic_ref(t));
            let m = s.map_values(rename_fn());
            assert(m =~= s) by {
                assert(m[0] == rename_ref(t));
                if let LuaTy::Class(name) = t {
                    assert(ref_alias_target(name) == name);
                }
            }
            assert(dedup(m) =~= s);
            assert(!any_member(s, pred_other_than_ref_or_nil()));
        }
    }
    let has_concrete = any_member(s, pred_concrete());
    assert(!any_member(Seq::<LuaTy>::empty(), pred_concrete()));
    assert((pred_concrete())(t) == !(t is Any || t is Nil));
    assert(has_concrete == !(t is Any || t is Nil));
    let seen1 = if has_concrete {
        keep_members(s, pred_not_any())
    } else {
        s
    };
    assert(seen1 =~= s) by {
        if has_concrete {
            assert(keep_members(Seq::<LuaTy>::empty(), pred_not_any()) =~= Seq::<LuaTy>::empty());
            assert(Seq::<LuaTy>::empty().push(t) =~= s);
        }
    }
    let has_nil = any_member(seen1, pred_nil());
    assert(!any_member(Seq::<LuaTy>::empty(), pred_nil()));
    assert((pred_nil())(t) == (t is Nil));
    assert(has_nil == (t is Nil));
    if has_nil {
        assert(keep_members(seen1, pred_not_nil()) =~= Seq::<LuaTy>::empty()) by {
            assert(keep_members(Seq::<LuaTy>::empty(), pred_not_nil()) =~= Seq::<LuaTy>::empty());
        }
    }
}

proof fn lemma_keep_members_props(s: Seq<LuaTy>, p: spec_fn(LuaTy) -> bool)
    ensures
        forall|i: int|
            0 <= i < keep_members(s, p).len() ==> p(#[trigger] keep_members(s, p)[i])
                && s.contains(keep_members(s, p)[i]),
        (forall|i: int, j: int| 0 <= i < j < s.len() ==> s[i] != s[j]) ==> (forall|i: int, j: int|
            0 <= i < j < keep_members(s, p).len() ==> keep_members(s, p)[i] != keep_members(
                s,
                p,
            )[j]),
    decreases s.len(),
{
    if s.len() > 0 {
        let d = keep_members(s.drop_last(), p);
        lemma_keep_members_props(s.drop_last(), p);
        assert forall|x: LuaTy| s.drop_last().contains(x) implies s.contains(x) by {
            let k = choose|k: int| 0 <= k < s.drop_last().len() && s.drop_last()[k] == x;
            assert(s[k] == x);
        }
        if p(s.last()) {
            let e = d.push(s.last());
            assert forall|i: int| 0 <= i < e.len() implies p(#[trigger] e[i]) && s.contains(e[i]) by {
                if i < d.len() {
                    assert(e[i] == d[i]);
                    assert(s.drop_last().contains(d[i]));
                } else {
                    assert(s[s.len() - 1] == e[i]);
                }
            }
            if forall|i: int, j: int| 0 <= i < j < s.len() ==> s[i] != s[j] {
                assert forall|i: int, j: int| 0 <= i < j < s.drop_last().len() implies s.drop_last()[i]
                    != s.drop_last()[j] by {
                    assert(s.drop_last()[i] == s[i]);
                    assert(s.drop_last()[j] == s[j]);
                }
                assert forall|i: int, j: int| 0 <= i < j < e.len() implies e[i] != e[j] by {
                    if j == d.len() {
                        assert(e[i] == d[i]);
                        assert(s.drop_last().contains(d[i]));
                        let k = choose|k: int| 0 <= k < s.drop_last().len() && s.drop_last()[k] == d[i];
                        assert(s[k] == d[i]);
                        assert(s[s.len() - 1] == e[j]);
                    } else {
                        assert(e[i] == d[i]);
                        assert(e[j] == d[j]);
                    }
                }
            }
        } else {
            assert forall|i: int| 0 <= i < d.len() implies p(#[trigger] d[i]) && s.contains(d[i]) by {
                assert(s.drop_last().contains(d[i]));
            }
            if forall|i: int, j: int| 0 <= i < j < s.len() ==> s[i] != s[j] {
                assert forall|i: int, j: int| 0 <= i < j < s.drop_last().len() implies s.drop_last()[i]
                    != s.drop_last()[j] by {
                    assert(s.drop_last()[i] == s[i]);
                    assert(s.drop_last()[j] == s[j]);
                }
            }
        }
    }
}

proof fn lemma_dedup_distinct(s: Seq<LuaTy>)
    ensures
        forall|i: int, j: int| 0 <= i < j < dedup(s).len() ==> dedup(s)[i] != dedup(s)[j],
    decreases s.len(),
{
    if s.len() > 0 {
        lemma_dedup_distinct(s.drop_last());
        let d = dedup(s.drop_last());
        if !d.contains(s.last()) {
            let e = d.push(s.last());
            assert forall|i: int, j: int| 0 <= i < j < e.len() implies e[i] != e[j] by {
                assert(e[i] == d[i]);
                if j < d.len() {
                    assert(e[j] == d[j]);
                }
            }
        }
    }
}

proof fn lemma_none_member(s: Seq<LuaTy>, p: spec_fn(LuaTy) -> bool)
    requires
        !any_member(s, p),
    ensures
        forall|i: int| 0 <= i < s.len() ==> !p(#[trigger] s[i]),
    decreases s.len(),
{
    if s.len() > 0 {
        lemma_none_member(s.drop_last(), p);
        assert forall|i: int| 0 <= i < s.len() implies !p(#[trigger] s[i]) by {
            if i < s.len() - 1 {
                assert(s[i] == s.drop_last()[i]);
            }
        }
    }
}

proof fn lemma_dedup_members(s: Seq<LuaTy>)
    ensures
        forall|i: int| 0 <= i < dedup(s).len() ==> s.contains(#[trigger] dedup(s)[i]),
    decreases s.len(),
{
    if s.len() > 0 {
        lemma_dedup_members(s.drop_last());
        let d = dedup(s.drop_last());
        assert forall|i: int| 0 <= i < dedup(s).len() implies s.contains(#[trigger] dedup(s)[i]) by {
            if i < d.len() {
                assert(dedup(s)[i] == d[i]);
                assert(s.drop_last().contains(d[i]));
                let k = choose|k: int| 0 <= k < s.drop_last().len() && s.drop_last()[k] == d[i];
                assert(s[k] == d[i]);
            } else {
                assert(s[s.len() - 1] == dedup(s)[i]);
            }
        }
    }
}

/// No member is a union.
pub open spec fn no_union_member(s: Seq<LuaTy>) -> bool {
    forall|i: int| 0 <= i < s.len() ==> !(#[trigger] s[i] is Union)
}

/// A branch type whose flattening brings in no union: a union of
/// non-unions, an optional of a non-union, or another non-union type.
pub open spec fn flat_branch(t: LuaTy) -> bool {
    match t {
        LuaTy::Union(inner) => no_union_member(inner),
        LuaTy::Optional(inner) => !(*inner is Union),
        _ => true,
    }
}

proof fn lemma_flatten_no_union(xs: Seq<LuaTy>)
    requires
        forall|i: int| 0 <= i < xs.len() ==> flat_branch(#[trigger] xs[i]),
    ensures
        no_union_member(flatten_members(xs)),
    decreases xs.len(),
{
    if xs.len() > 0 {
        assert forall|i: int| 0 <= i < xs.drop_last().len() implies flat_branch(
            #[trigger] xs.drop_last()[i],
        ) by {
            assert(xs.drop_last()[i] == xs[i]);
        }
        lemma_flatten_no_union(xs.drop_last());
        let a = flatten_members(xs.drop_last());
        let e = expand_member(xs.last());
        assert(flat_branch(xs[xs.len() - 1]));
        assert(no_union_member(e));
        assert forall|i: int| 0 <= i < (a + e).len() implies !(#[trigger] (a + e)[i] is Union) by {
            if i < a.len() {
                assert((a + e)[i] == a[i]);
            } else {
                assert((a + e)[i] == e[i - a.len()]);
            }
        }
    }
}

proof fn lemma_normalize_refs_no_union(s: Seq<LuaTy>)
    requires
        no_union_member(s),
    ensures
        no_union_member(normalize_refs(s)),
{
    if any_member(s, pred_generic_ref()) {
        let m = s.map_values(rename_fn());
        assert(no_union_member(m)) by {
            assert forall|i: int| 0 <= i < m.len() implies !(#[trigger] m[i] is Union) by {
                assert(m[i] == rename_ref(s[i]));
            }
        }
        lemma_dedup_members(m);
        assert(no_union_member(dedup(m))) by {
            assert forall|i: int| 0 <= i < dedup(m).len() implies !(#[trigger] dedup(m)[i] is Union) by {
                assert(m.contains(dedup(m)[i]));
            }
        }
        lemma_keep_members_props(dedup(m), pred_not_generic_ref());
        assert(no_union_member(keep_members(dedup(m), pred_not_generic_ref()))) by {
            assert forall|i: int| 0 <= i < keep_members(dedup(m), pred_not_generic_ref()).len() implies !(
            #[trigger] keep_members(dedup(m), pred_not_generic_ref())[i] is Union) by {
                assert(dedup(m).contains(keep_members(dedup(m), pred_not_generic_ref())[i]));
            }
        }
    }
}

/// A union of branches that bring in no nested union stays a union only
/// with at least two members, none of them `nil` (which makes the union
/// optional instead) nor `any`, and none twice.
pub proof fn law_union_members(xs: Seq<LuaTy>)
    requires
        forall|i: int| 0 <= i < xs.len() ==> flat_branch(#[trigger] xs[i]),
    ensures
        union_of(xs) matches LuaTy::Union(items) ==> {
            &&& items.len() >= 2
            &&& forall|i: int| 0 <= i < items.len() ==> !(#[trigger] items[i] is Nil) && !(
            items[i] is Any)
            &&& forall|i: int, j: int| 0 <= i < j < items.len() ==> items[i] != items[j]
        },
{
    let f = flatten_members(xs);
    let d0 = dedup(f);
    lemma_dedup_distinct(f);
    lemma_flatten_no_union(xs);
    lemma_dedup_members(f);
    assert(no_union_member(d0)) by {
        assert forall|i: int| 0 <= i < d0.len() implies !(#[trigger] d0[i] is Union) by {
            assert(f.contains(d0[i]));
        }
    }
    let seen0 = normalize_refs(d0);
    lemma_normalize_refs_no_union(d0);
    assert(forall|i: int, j: int| 0 <= i < j < seen0.len() ==> seen0[i] != seen0[j]) by {
        if any_member(d0, pred_generic_ref()) {
            let m = d0.map_values(rename_fn());
            lemma_dedup_distinct(m);
            if any_member(dedup(m), pred_other_than_ref_or_nil()) {
                lemma_keep_members_props(dedup(m), pred_not_generic_ref());
            }
        }
    }
    let has_concrete = any_member(seen0, pred_concrete());
    let seen1 = if has_concrete {
        keep_members(seen0, pred_not_any())
    } else {
        seen0
    };
    lemma_keep_members_props(seen0, pred_not_any());
    assert(forall|i: int, j: int| 0 <= i < j < seen1.len() ==> seen1[i] != seen1[j]);
    let has_nil = any_member(seen1, pred_nil());
    let seen2 = if has_nil {
        keep_members(seen1, pred_not_nil())
    } else {
        seen1
    };
    lemma_keep_members_props(seen1, pred_not_nil());
    if !has_nil {
        lemma_none_member(seen1, pred_nil());
    }
    assert(forall|i: int| 0 <= i < seen2.len() ==> !(#[trigger] seen2[i] is Nil));
    assert(forall|i: int| 0 <= i < seen2.len() ==> seen1.contains(#[trigger] seen2[i]));
    if seen2.len() > 1 {
        if has_concrete {
            assert forall|i: int| 0 <= i < seen2.len() implies !(#[trigger] seen2[i] is Any) by {
                assert(seen1.contains(seen2[i]));
                let k = choose|k: int| 0 <= k < seen1.len() && seen1[k] == seen2[i];
                assert((pred_not_any())(seen1[k]));
            }
        } else {
            lemma_none_member(seen0, pred_concrete());
            assert(seen1 == seen0);
            // every member is `any`, and members are distinct
            assert(seen2[0] is Any) by {
                assert(seen1.contains(seen2[0]));
                let k = choose|k: int| 0 <= k < seen1.len() && seen1[k] == seen2[0];
                assert(!(pred_concrete())(seen1[k]));
            }
            assert(seen2[1] is Any) by {
                assert(seen1.contains(seen2[1]));
                let k = choose|k: int| 0 <= k < seen1.len() && seen1[k] == seen2[1];
                assert(!(pred_concrete())(seen1[k]));
            }
            assert(false);
        }
        assert(union_of(xs) == (if has_nil {
            LuaTy::Optional(Box::new(LuaTy::Union(seen2)))
        } else {
            LuaTy::Union(seen2)
        }));
    } else if seen2.len() == 1 {
        assert(seen1.contains(seen2[0]));
        let k = choose|k: int| 0 <= k < seen1.len() && seen1[k] == seen2[0];
        if has_concrete {
            assert(seen0.contains(seen1[k]));
        }
        assert(!(seen2[0] is Union));
        assert(union_of(xs) == (if has_nil {
            LuaTy::Optional(Box::new(seen2[0]))
        } else {
            seen2[0]
        }));
    } else {
        assert(union_of(xs) == (if has_nil {
            LuaTy::Nil
        } else {
            LuaTy::Any
        }));
    }
}

// ── union idempotence ─────────────────────────────────────────────────

proof fn lemma_any_member_iff(s: Seq<LuaTy>, p: spec_fn(LuaTy) -> bool)
    ensures
        any_member(s, p) <==> exists|i: int| 0 <= i < s.len() && p(#[trigger] s[i]),
    decreases s.len(),
{
    if s.len() > 0 {
        lemma_any_member_iff(s.drop_last(), p);
        if any_member(s.drop_last(), p) {
            let i = choose|i: int| 0 <= i < s.drop_last().len() && p(#[trigger] s.drop_last()[i]);
            assert(s[i] == s.drop_last()[i]);
        }
        if exists|i: int| 0 <= i < s.len() && p(#[trigger] s[i]) {
            let i = choose|i: int| 0 <= i < s.len() && p(#[trigger] s[i]);
            if i < s.len() - 1 {
                assert(s.drop_last()[i] == s[i]);
            }
        }
    }
}

proof fn lemma_dedup_complete(s: Seq<LuaTy>, x: LuaTy)
    requires
        s.contains(x),
    ensures
        dedup(s).contains(x),
    decreases s.len(),
{
    let d = dedup(s.drop_last());
    if s.last() == x {
        if !d.contains(x) {
            assert(d.push(x)[d.len() as int] == x);
        }
    } else {
        let k = choose|k: int| 0 <= k < s.len() && s[k] == x;
        assert(s.drop_last()[k] == x);
        lemma_dedup_complete(s.drop_last(), x);
        if !d.contains(s.last()) {
            let j = choose|j: int| 0 <= j < d.len() && d[j] == x;
            assert(d.push(s.last())[j] == x);
        }
    }
}

proof fn lemma_keep_complete(s: Seq<LuaTy>, p: spec_fn(LuaTy) -> bool, x: LuaTy)
    requires
        s.contains(x),
        p(x),
    ensures
        keep_members(s, p).contains(x),
    decreases s.len(),
{
    let d = keep_members(s.drop_last(), p);
    if s.last() == x {
        assert(d.push(x)[d.len() as int] == x);
    } else {
        let k = choose|k: int| 0 <= k < s.len() && s[k] == x;
        assert(s.drop_last()[k] == x);
        lemma_keep_complete(s.drop_last(), p, x);
        if p(s.last()) {
            let j = choose|j: int| 0 <= j < d.len() && d[j] == x;
            assert(d.push(s.last())[j] == x);
        }
    }
}

proof fn lemma_dedup_id(s: Seq<LuaTy>)
    requires
        forall|i: int, j: int| 0 <= i < j < s.len() ==> s[i] != s[j],
    ensures
        dedup(s) == s,
    decreases s.len(),
{
    if s.len() > 0 {
        let t = s.drop_last();
        assert forall|i: int, j: int| 0 <= i < j < t.len() implies t[i] != t[j] by {
            assert(t[i] == s[i] && t[j] == s[j]);
        }
        lemma_dedup_id(t);
        assert(!t.contains(s.last())) by {
            if t.contains(s.last()) {
                let k = choose|k: int| 0 <= k < t.len() && t[k] == s.last();
                assert(s[k] == s[s.len() - 1]);
            }
        }
        assert(t.push(s.last()) =~= s);
    }
}

proof fn lemma_keep_id(s: Seq<LuaTy>, p: spec_fn(LuaTy) -> bool)
    requires
        forall|i: int| 0 <= i < s.len() ==> p(#[trigger] s[i]),
    ensures
        keep_members(s, p) == s,
    decreases s.len(),
{
    if s.len() > 0 {
        let t = s.drop_last();
        assert forall|i: int| 0 <= i < t.len() implies p(#[trigger] t[i]) by {
            assert(t[i] == s[i]);
        }
        lemma_keep_id(t, p);
        assert(p(s[s.len() - 1]));
        assert(t.push(s.last()) =~= s);
    }
}

/// A branch type that is no union holding a union or an optional.
pub open spec fn plain_branch(t: LuaTy) -> bool {
    match t {
        LuaTy::Union(inner) => forall|i: int|
            0 <= i < inner.len() ==> !(#[trigger] inner[i] is Union) && !(inner[i] is Optional),
        _ => true,
    }
}

proof fn lemma_flatten_optional_nil(ts: Seq<LuaTy>)
    requires
        forall|i: int| 0 <= i < ts.len() ==> plain_branch(#[trigger] ts[i]),
    ensures
        forall|i: int|
            0 <= i < flatten_members(ts).len() && wrapped(#[trigger] flatten_members(ts)[i])
                ==> flatten_members(ts).contains(LuaTy::Nil),
    decreases ts.len(),
{
    if ts.len() > 0 {
        let r = ts.drop_last();
        assert forall|i: int| 0 <= i < r.len() implies plain_branch(#[trigger] r[i]) by {
            assert(r[i] == ts[i]);
        }
        lemma_flatten_optional_nil(r);
        let a = flatten_members(r);
        let e = expand_member(ts.last());
        let f = a + e;
        assert(plain_branch(ts[ts.len() - 1]));
        assert forall|i: int| 0 <= i < f.len() && wrapped(#[trigger] f[i]) implies f.contains(
            LuaTy::Nil,
        ) by {
            if i < a.len() {
                assert(f[i] == a[i]);
                let k = choose|k: int| 0 <= k < a.len() && a[k] == LuaTy::Nil;
                assert(f[k] == LuaTy::Nil);
            } else {
                assert(f[i] == e[i - a.len()]);
                match ts.last() {
                    LuaTy::Optional(inner) => {
                        assert(f[a.len() + 1int] == LuaTy::Nil);
                    },
                    LuaTy::Union(inner) => {
                        assert(e[i - a.len()] == inner[i - a.len()]);
                    },
                    _ => {},
                }
            }
        }
    }
}

/// An optional or a union: what flattening a branch leaves wrapped only
/// when it came from inside an optional.
pub open spec fn wrapped(t: LuaTy) -> bool {
    t is Optional || t is Union
}

/// Some member is an optional or a union.
spec fn has_optional(s: Seq<LuaTy>) -> bool {
    exists|i: int| 0 <= i < s.len() && wrapped(#[trigger] s[i])
}

/// What `normalize_refs` keeps: an optional only where there was one,
/// `nil` where there was `nil`, and either no generic reference or only
/// generic references and `nil`.
proof fn lemma_normalize_refs_shape(d: Seq<LuaTy>)
    ensures
        has_optional(normalize_refs(d)) ==> has_optional(d),
        d.contains(LuaTy::Nil) ==> normalize_refs(d).contains(LuaTy::Nil),
        (forall|i: int| 0 <= i < normalize_refs(d).len() ==> !is_generic_ref(#[trigger] normalize_refs(d)[i]))
            || (forall|i: int|
            0 <= i < normalize_refs(d).len() ==> is_generic_ref(#[trigger] normalize_refs(d)[i])
                || normalize_refs(d)[i] is Nil),
{
    let r = normalize_refs(d);
    if !any_member(d, pred_generic_ref()) {
        lemma_none_member(d, pred_generic_ref());
        assert forall|i: int| 0 <= i < r.len() implies !is_generic_ref(#[trigger] r[i]) by {
            assert(!(pred_generic_ref())(d[i]));
        }
    } else {
        let m = d.map_values(rename_fn());
        let dd = dedup(m);
        lemma_dedup_members(m);
        assert(forall|k: int| 0 <= k < m.len() ==> #[trigger] m[k] == rename_ref(d[k]));
        if d.contains(LuaTy::Nil) {
            let k = choose|k: int| 0 <= k < d.len() && d[k] == LuaTy::Nil;
            assert(m[k] == LuaTy::Nil);
            lemma_dedup_complete(m, LuaTy::Nil);
        }
        if any_member(dd, pred_other_than_ref_or_nil()) {
            lemma_keep_members_props(dd, pred_not_generic_ref());
            if d.contains(LuaTy::Nil) {
                lemma_keep_complete(dd, pred_not_generic_ref(), LuaTy::Nil);
            }
            if has_optional(r) {
                let i = choose|i: int| 0 <= i < r.len() && wrapped(#[trigger] r[i]);
                assert(dd.contains(r[i]));
                let a = choose|a: int| 0 <= a < dd.len() && dd[a] == r[i];
                assert(m.contains(dd[a]));
                let b = choose|b: int| 0 <= b < m.len() && m[b] == dd[a];
                assert(wrapped(d[b]));
            }
            assert forall|i: int| 0 <= i < r.len() implies !is_generic_ref(#[trigger] r[i]) by {
                assert((pred_not_generic_ref())(r[i]));
            }
        } else {
            lemma_none_member(dd, pred_other_than_ref_or_nil());
            if has_optional(r) {
                let i = choose|i: int| 0 <= i < r.len() && wrapped(#[trigger] r[i]);
                assert(m.contains(dd[i]));
                let b = choose|b: int| 0 <= b < m.len() && m[b] == dd[i];
                assert(wrapped(d[b]));
            }
            assert forall|i: int| 0 <= i < r.len() implies is_generic_ref(#[trigger] r[i]) || r[i] is Nil by {
                assert(!(pred_other_than_ref_or_nil())(dd[i]));
            }
        }
    }
}

proof fn lemma_flatten_one(t: LuaTy)
    ensures
        flatten_members(seq![t]) == expand_member(t),
{
    lemma_one(t);
    assert(flatten_members(seq![t]) == flatten_members(Seq::<LuaTy>::empty()) + expand_member(t));
    assert(flatten_members(seq![t]) =~= expand_member(t));
}

/// The union of one optional branch is that optional.
proof fn lemma_union_of_optional(x: LuaTy)
    requires
        !(x is Nil),
    ensures
        union_of(seq![LuaTy::Optional(Box::new(x))]) == LuaTy::Optional(Box::new(x)),
{
    let o = LuaTy::Optional(Box::new(x));
    let s = seq![x, LuaTy::Nil];
    lemma_flatten_one(o);
    assert(expand_member(o) =~= s);
    assert(s[0] != s[1]);
    lemma_dedup_id(s);
    lemma_any_member_iff(s, pred_generic_ref());
    if any_member(s, pred_generic_ref()) {
        assert(is_generic_ref(x)) by {
            let i = choose|i: int| 0 <= i < s.len() && (pred_generic_ref())(#[trigger] s[i]);
            assert(i == 0);
        }
        let m = s.map_values(rename_fn());
        if let LuaTy::Class(name) = x {
            assert(ref_alias_target(name) == name);
        }
        assert(m =~= s) by {
            assert(m[0] == rename_ref(x));
            assert(m[1] == rename_ref(LuaTy::Nil));
        }
        lemma_any_member_iff(s, pred_other_than_ref_or_nil());
        assert(!any_member(s, pred_other_than_ref_or_nil())) by {
            assert forall|i: int| 0 <= i < s.len() implies !(pred_other_than_ref_or_nil())(#[trigger] s[i]) by {
                if i == 0 {
                    assert(is_generic_ref(s[0]));
                }
            }
        }
    }
    assert(normalize_refs(s) == s);
    lemma_any_member_iff(s, pred_concrete());
    lemma_any_member_iff(s, pred_nil());
    assert((pred_nil())(s[1]));
    let has_concrete = any_member(s, pred_concrete());
    assert(has_concrete == !(x is Any)) by {
        if !(x is Any) {
            assert((pred_concrete())(s[0]));
        } else {
            assert forall|i: int| 0 <= i < s.len() implies !(pred_concrete())(#[trigger] s[i]) by {}
        }
    }
    if has_concrete {
        lemma_keep_id(s, pred_not_any());
    }
    let seen1 = s;
    assert(any_member(seen1, pred_nil()));
    let seen2 = keep_members(seen1, pred_not_nil());
    assert(seen1.drop_last() =~= seq![x]);
    assert(seq![x].drop_last() =~= Seq::<LuaTy>::empty());
    assert(seen2 =~= seq![x]) by {
        assert(keep_members(seq![x], pred_not_nil()) == keep_members(Seq::<LuaTy>::empty(), pred_not_nil()).push(x));
        assert(Seq::<LuaTy>::empty().push(x) =~= seq![x]);
    }
}

/// The union of one union branch of distinct members, none of them `nil`
/// nor `any`, and either all or none of them generic references, is that
/// union.
proof fn lemma_union_of_union(items: Seq<LuaTy>)
    requires
        items.len() >= 2,
        forall|i: int, j: int| 0 <= i < j < items.len() ==> items[i] != items[j],
        forall|i: int| 0 <= i < items.len() ==> !(#[trigger] items[i] is Nil) && !(items[i] is Any),
        (forall|i: int| 0 <= i < items.len() ==> !is_generic_ref(#[trigger] items[i])) || (forall|i: int|
            0 <= i < items.len() ==> is_generic_ref(#[trigger] items[i])),
    ensures
        union_of(seq![LuaTy::Union(items)]) == LuaTy::Union(items),
{
    lemma_flatten_one(LuaTy::Union(items));
    lemma_dedup_id(items);
    lemma_any_member_iff(items, pred_generic_ref());
    if any_member(items, pred_generic_ref()) {
        let m = items.map_values(rename_fn());
        assert forall|i: int| 0 <= i < items.len() implies #[trigger] m[i] == items[i] by {
            assert((pred_generic_ref())(items[choose|k: int| 0 <= k < items.len() && (pred_generic_ref())(#[trigger] items[k])]));
            assert(is_generic_ref(items[i]));
            if let LuaTy::Class(name) = items[i] {
                assert(ref_alias_target(name) == name);
            }
        }
        assert(m =~= items);
        lemma_any_member_iff(items, pred_other_than_ref_or_nil());
    }
    assert(normalize_refs(items) == items);
    lemma_any_member_iff(items, pred_concrete());
    assert((pred_concrete())(items[0]));
    assert forall|i: int| 0 <= i < items.len() implies (pred_not_any())(#[trigger] items[i]) by {}
    lemma_keep_id(items, pred_not_any());
    lemma_any_member_iff(items, pred_nil());
}

/// Making a union of what `make_union` gave changes nothing, for branches
/// none of which is a union holding a union or an optional.
pub proof fn law_union_idempotent(ts: Seq<LuaTy>)
    requires
        forall|i: int| 0 <= i < ts.len() ==> plain_branch(#[trigger] ts[i]),
    ensures
        union_of(seq![union_of(ts)]) == union_of(ts),
{
    let f = flatten_members(ts);
    let d0 = dedup(f);
    lemma_dedup_distinct(f);
    lemma_dedup_members(f);
    let seen0 = normalize_refs(d0);
    lemma_normalize_refs_shape(d0);
    assert(forall|i: int, j: int| 0 <= i < j < seen0.len() ==> seen0[i] != seen0[j]) by {
        if any_member(d0, pred_generic_ref()) {
            let m = d0.map_values(rename_fn());
            lemma_dedup_distinct(m);
            if any_member(dedup(m), pred_other_than_ref_or_nil()) {
                lemma_keep_members_props(dedup(m), pred_not_generic_ref());
            }
        }
    }
    let has_concrete = any_member(seen0, pred_concrete());
    let seen1 = if has_concrete {
        keep_members(seen0, pred_not_any())
    } else {
        seen0
    };
    lemma_keep_members_props(seen0, pred_not_any());
    assert(forall|i: int, j: int| 0 <= i < j < seen1.len() ==> seen1[i] != seen1[j]);
    let has_nil = any_member(seen1, pred_nil());
    let seen2 = if has_nil {
        keep_members(seen1, pred_not_nil())
    } else {
        seen1
    };
    lemma_keep_members_props(seen1, pred_not_nil());
    if !has_nil {
        lemma_none_member(seen1, pred_nil());
    }
    assert(forall|i: int| 0 <= i < seen2.len() ==> seen1.contains(#[trigger] seen2[i]));
    assert(forall|i: int| 0 <= i < seen1.len() ==> seen0.contains(#[trigger] seen1[i]));
    assert(forall|i: int| 0 <= i < seen2.len() ==> !(#[trigger] seen2[i] is Nil));
    assert(forall|i: int, j: int| 0 <= i < j < seen2.len() ==> seen2[i] != seen2[j]);
    let u = union_of(ts);
    // a wrapped member means a `nil` among the members
    assert(has_optional(seen2) ==> has_nil) by {
        if has_optional(seen2) {
            let i2 = choose|i: int| 0 <= i < seen2.len() && wrapped(#[trigger] seen2[i]);
            assert(seen1.contains(seen2[i2]));
            let k1 = choose|k: int| 0 <= k < seen1.len() && seen1[k] == seen2[i2];
            assert(seen0.contains(seen1[k1]));
            let k0 = choose|k: int| 0 <= k < seen0.len() && seen0[k] == seen1[k1];
            assert(wrapped(seen0[k0]));
            assert(has_optional(seen0));
            assert(has_optional(f)) by {
                let j = choose|j: int| 0 <= j < d0.len() && wrapped(#[trigger] d0[j]);
                assert(f.contains(d0[j]));
            }
            lemma_flatten_optional_nil(ts);
            let j = choose|j: int| 0 <= j < f.len() && wrapped(#[trigger] f[j]);
            assert(f.contains(LuaTy::Nil));
            lemma_dedup_complete(f, LuaTy::Nil);
            assert(seen0.contains(LuaTy::Nil));
            if has_concrete {
                lemma_keep_complete(seen0, pred_not_any(), LuaTy::Nil);
            }
            lemma_any_member_iff(seen1, pred_nil());
            let n = choose|n: int| 0 <= n < seen1.len() && seen1[n] == LuaTy::Nil;
            assert((pred_nil())(seen1[n]));
        }
    }
    if seen2.len() == 0 {
        law_single_branch_union(u);
    } else if seen2.len() == 1 {
        let x = seen2[0];
        if has_nil {
            assert(u == LuaTy::Optional(Box::new(x)));
            lemma_union_of_optional(x);
        } else {
            assert(!wrapped(x));
            assert(u == x);
            law_single_branch_union(x);
        }
    } else {
        let items = seen2;
        if has_nil {
            assert(u == LuaTy::Optional(Box::new(LuaTy::Union(items))));
            lemma_union_of_optional(LuaTy::Union(items));
        } else {
            assert(u == LuaTy::Union(items));
            if has_concrete {
                assert forall|i: int| 0 <= i < items.len() implies !(#[trigger] items[i] is Any) by {
                    let k = choose|k: int| 0 <= k < seen1.len() && seen1[k] == items[i];
                    assert((pred_not_any())(seen1[k]));
                }
            } else {
                lemma_none_member(seen0, pred_concrete());
                assert(items[0] is Any) by {
                    let k = choose|k: int| 0 <= k < seen1.len() && seen1[k] == items[0];
                    assert(!(pred_concrete())(seen1[k]));
                }
                assert(items[1] is Any) by {
                    let k = choose|k: int| 0 <= k < seen1.len() && seen1[k] == items[1];
                    assert(!(pred_concrete())(seen1[k]));
                }
                assert(false);
            }
            assert forall|i: int| 0 <= i < items.len() implies seen0.contains(#[trigger] items[i]) by {
                assert(seen1.contains(items[i]));
                let k = choose|k: int| 0 <= k < seen1.len() && seen1[k] == items[i];
                assert(seen0.contains(seen1[k]));
            }
            if !(forall|i: int| 0 <= i < items.len() ==> !is_generic_ref(#[trigger] items[i])) {
                assert forall|i: int| 0 <= i < items.len() implies is_generic_ref(#[trigger] items[i]) by {
                    let k = choose|k: int| 0 <= k < seen0.len() && seen0[k] == items[i];
                    let g = choose|g: int| 0 <= g < items.len() && is_generic_ref(#[trigger] items[g]);
                    let kg = choose|kg: int| 0 <= kg < seen0.len() && seen0[kg] == items[g];
                    assert(is_generic_ref(seen0[kg]));
                    assert(is_generic_ref(seen0[k]) || seen0[k] is Nil);
                }
            }
            lemma_union_of_union(items);
        }
    }
}

// ── stubs ─────────────────────────────────────────────────────────────

/// Every stub file starts with `---@meta`, whatever the API and target.
pub proof fn law_stubs_are_meta(api: LuaApi, target: CodegenTarget)
    ensures
        starts_with(stubs_text(api, target), "---@meta\n"@),
{
    let s = stubs_text(api, target);
    let h = "---@meta\n"@;
    assert(s.subrange(0, h.len() as int) =~= h);
}

proof fn lemma_classes_prefix(a: Seq<LuaClass>, b: Seq<LuaClass>, t: CodegenTarget, n: nat)
    requires
        n <= a.len(),
        n <= b.len(),
        forall|i: int| 0 <= i < n ==> a[i] == b[i],
    ensures
        classes_text(a, t, n) == classes_text(b, t, n),
    decreases n,
{
    if n > 0 {
        lemma_classes_prefix(a, b, t, (n - 1) as nat);
    }
}

proof fn lemma_classes_concat(a: Seq<LuaClass>, b: Seq<LuaClass>, t: CodegenTarget, n: nat)
    requires
        n <= b.len(),
    ensures
        classes_text(a + b, t, a.len() + n) == classes_text(a, t, a.len()) + classes_text(b, t, n),
    decreases n,
{
    if n == 0 {
        lemma_classes_prefix(a + b, a, t, a.len());
        assert(classes_text(a, t, a.len()) + classes_text(b, t, 0) =~= classes_text(a, t, a.len()));
    } else {
        lemma_classes_concat(a, b, t, (n - 1) as nat);
        assert((a + b)[a.len() + n - 1] == b[n - 1]);
        assert(classes_text(a + b, t, a.len() + n) == classes_text(a + b, t, (a.len() + n - 1) as nat)
            + "\n"@ + class_text(b[n - 1], t));
        assert(classes_text(a, t, a.len()) + classes_text(b, t, n) =~= classes_text(a, t, a.len())
            + classes_text(b, t, (n - 1) as nat) + "\n"@ + class_text(b[n - 1], t));
    }
}

/// An API of classes only.
pub open spec fn classes_only(api: LuaApi) -> bool {
    &&& api.enums@.len() == 0
    &&& api.modules@.len() == 0
    &&& api.global_fields@.len() == 0
    &&& api.global_functions@.len() == 0
}

/// Classes are rendered independently: the stubs of the classes of two
/// APIs together are the stubs of the first followed by those of the
/// second, without its `---@meta` line.
pub proof fn law_classes_render_independently(a1: LuaApi, a2: LuaApi, a: LuaApi, t: CodegenTarget)
    requires
        classes_only(a1),
        classes_only(a2),
        classes_only(a),
        a.classes@ == a1.classes@ + a2.classes@,
    ensures
        stubs_text(a, t) == stubs_text(a1, t) + stubs_text(a2, t).subrange(
            "---@meta\n"@.len() as int,
            stubs_text(a2, t).len() as int,
        ),
{
    reveal_strlit("---@meta\n");
    lemma_classes_concat(a1.classes@, a2.classes@, t, a2.classes@.len());
    let h = "---@meta\n"@;
    let c2 = classes_text(a2.classes@, t, a2.classes@.len());
    assert(stubs_text(a2, t) =~= h + c2);
    assert((h + c2).subrange(h.len() as int, (h + c2).len() as int) =~= c2);
    assert(stubs_text(a1, t) =~= h + classes_text(a1.classes@, t, a1.classes@.len()));
    assert(stubs_text(a, t) =~= h + classes_text(a.classes@, t, a.classes@.len()));
}

proof fn lemma_enums_prefix(a: Seq<LuaEnum>, b: Seq<LuaEnum>, n: nat)
    requires
        n <= a.len(),
        n <= b.len(),
        forall|i: int| 0 <= i < n ==> a[i] == b[i],
    ensures
        enums_text(a, n) == enums_text(b, n),
    decreases n,
{
    if n > 0 {
        lemma_enums_prefix(a, b, (n - 1) as nat);
    }
}

proof fn lemma_enums_concat(a: Seq<LuaEnum>, b: Seq<LuaEnum>, n: nat)
    requires
        n <= b.len(),
    ensures
        enums_text(a + b, a.len() + n) == enums_text(a, a.len()) + enums_text(b, n),
    decreases n,
{
    if n == 0 {
        lemma_enums_prefix(a + b, a, a.len());
        assert(enums_text(a, a.len()) + enums_text(b, 0) =~= enums_text(a, a.len()));
    } else {
        lemma_enums_concat(a, b, (n - 1) as nat);
        assert((a + b)[a.len() + n - 1] == b[n - 1]);
        assert(enums_text(a + b, a.len() + n) == enums_text(a + b, (a.len() + n - 1) as nat)
            + "\n"@ + enum_text(b[n - 1]));
        assert(enums_text(a, a.len()) + enums_text(b, n) =~= enums_text(a, a.len())
            + enums_text(b, (n - 1) as nat) + "\n"@ + enum_text(b[n - 1]));
    }
}

/// An API of enums only.
pub open spec fn enums_only(api: LuaApi) -> bool {
    &&& api.classes@.len() == 0
    &&& api.modules@.len() == 0
    &&& api.global_fields@.len() == 0
    &&& api.global_functions@.len() == 0
}

/// The enums are rendered independently: the stubs of the enums of
/// two APIs together are the stubs of the first followed by those of the
/// second, without its `---@meta` line.
pub proof fn law_enums_render_independently(a1: LuaApi, a2: LuaApi, a: LuaApi, t: CodegenTarget)
    requires
        enums_only(a1),
        enums_only(a2),
        enums_only(a),
        a.enums@ == a1.enums@ + a2.enums@,
    ensures
        stubs_text(a, t) == stubs_text(a1, t) + stubs_text(a2, t).subrange(
            "---@meta\n"@.len() as int,
            stubs_text(a2, t).len() as int,
        ),
{
    reveal_strlit("---@meta\n");
    lemma_enums_concat(a1.enums@, a2.enums@, a2.enums@.len());
    let h = "---@meta\n"@;
    let c2 = enums_text(a2.enums@, a2.enums@.len());
    assert(stubs_text(a2, t) =~= h + c2);
    assert((h + c2).subrange(h.len() as int, (h + c2).len() as int) =~= c2);
    assert(stubs_text(a1, t) =~= h + enums_text(a1.enums@, a1.enums@.len()));
    assert(stubs_text(a, t) =~= h + enums_text(a.enums@, a.enums@.len()));
}

proof fn lemma_modules_prefix(a: Seq<LuaModule>, b: Seq<LuaModule>, n: nat)
    requires
        n <= a.len(),
        n <= b.len(),
        forall|i: int| 0 <= i < n ==> a[i] == b[i],
    ensures
        modules_text(a, n) == modules_text(b, n),
    decreases n,
{
    if n > 0 {
        lemma_modules_prefix(a, b, (n - 1) as nat);
    }
}

proof fn lemma_modules_concat(a: Seq<LuaModule>, b: Seq<LuaModule>, n: nat)
    requires
        n <= b.len(),
    ensures
        modules_text(a + b, a.len() + n) == modules_text(a, a.len()) + modules_text(b, n),
    decreases n,
{
    if n == 0 {
        lemma_modules_prefix(a + b, a, a.len());
        assert(modules_text(a, a.len()) + modules_text(b, 0) =~= modules_text(a, a.len()));
    } else {
        lemma_modules_concat(a, b, (n - 1) as nat);
        assert((a + b)[a.len() + n - 1] == b[n - 1]);
        assert(modules_text(a + b, a.len() + n) == modules_text(a + b, (a.len() + n - 1) as nat)
            + "\n"@ + module_text(b[n - 1]));
        assert(modules_text(a, a.len()) + modules_text(b, n) =~= modules_text(a, a.len())
            + modules_text(b, (n - 1) as nat) + "\n"@ + module_text(b[n - 1]));
    }
}

/// An API of modules only.
pub open spec fn modules_only(api: LuaApi) -> bool {
    &&& api.classes@.len() == 0
    &&& api.enums@.len() == 0
    &&& api.global_fields@.len() == 0
    &&& api.global_functions@.len() == 0
}

/// The modules are rendered independently: the stubs of the modules of
/// two APIs together are the stubs of the first followed by those of the
/// second, without its `---@meta` line.
pub proof fn law_modules_render_independently(a1: LuaApi, a2: LuaApi, a: LuaApi, t: CodegenTarget)
    requires
        modules_only(a1),
        modules_only(a2),
        modules_only(a),
        a.modules@ == a1.modules@ + a2.modules@,
    ensures
        stubs_text(a, t) == stubs_text(a1, t) + stubs_text(a2, t).subrange(
            "---@meta\n"@.len() as int,
            stubs_text(a2, t).len() as int,
        ),
{
    reveal_strlit("---@meta\n");
    lemma_modules_concat(a1.modules@, a2.modules@, a2.modules@.len());
    let h = "---@meta\n"@;
    let c2 = modules_text(a2.modules@, a2.modules@.len());
    assert(stubs_text(a2, t) =~= h + c2);
    assert((h + c2).subrange(h.len() as int, (h + c2).len() as int) =~= c2);
    assert(stubs_text(a1, t) =~= h + modules_text(a1.modules@, a1.modules@.len()));
    assert(stubs_text(a, t) =~= h + modules_text(a.modules@, a.modules@.len()));
}

proof fn lemma_global_fields_prefix(a: Seq<LuaField>, b: Seq<LuaField>, n: nat)
    requires
        n <= a.len(),
        n <= b.len(),
        forall|i: int| 0 <= i < n ==> a[i] == b[i],
    ensures
        global_fields_text(a, n) == global_fields_text(b, n),
    decreases n,
{
    if n > 0 {
        lemma_global_fields_prefix(a, b, (n - 1) as nat);
    }
}

proof fn lemma_global_fields_concat(a: Seq<LuaField>, b: Seq<LuaField>, n: nat)
    requires
        n <= b.len(),
    ensures
        global_fields_text(a + b, a.len() + n) == global_fields_text(a, a.len()) + global_fields_text(b, n),
    decreases n,
{
    if n == 0 {
        lemma_global_fields_prefix(a + b, a, a.len());
        assert(global_fields_text(a, a.len()) + global_fields_text(b, 0) =~= global_fields_text(a, a.len()));
    } else {
        lemma_global_fields_concat(a, b, (n - 1) as nat);
        assert((a + b)[a.len() + n - 1] == b[n - 1]);
        assert(global_fields_text(a + b, a.len() + n) == global_fields_text(a + b, (a.len() + n - 1) as nat)
            + "\n"@ + global_field_text(b[n - 1]));
        assert(global_fields_text(a, a.len()) + global_fields_text(b, n) =~= global_fields_text(a, a.len())
            + global_fields_text(b, (n - 1) as nat) + "\n"@ + global_field_text(b[n - 1]));
    }
}

/// An API of global fields only.
pub open spec fn global_fields_only(api: LuaApi) -> bool {
    &&& api.classes@.len() == 0
    &&& api.enums@.len() == 0
    &&& api.modules@.len() == 0
    &&& api.global_functions@.len() == 0
}

/// The global fields are rendered independently: the stubs of the global fields of
/// two APIs together are the stubs of the first followed by those of the
/// second, without its `---@meta` line.
pub proof fn law_global_fields_render_independently(a1: LuaApi, a2: LuaApi, a: LuaApi, t: CodegenTarget)
    requires
        global_fields_only(a1),
        global_fields_only(a2),
        global_fields_only(a),
        a.global_fields@ == a1.global_fields@ + a2.global_fields@,
    ensures
        stubs_text(a, t) == stubs_text(a1, t) + stubs_text(a2, t).subrange(
            "---@meta\n"@.len() as int,
            stubs_text(a2, t).len() as int,
        ),
{
    reveal_strlit("---@meta\n");
    lemma_global_fields_concat(a1.global_fields@, a2.global_fields@, a2.global_fields@.len());
    let h = "---@meta\n"@;
    let c2 = global_fields_text(a2.global_fields@, a2.global_fields@.len());
    assert(stubs_text(a2, t) =~= h + c2);
    assert((h + c2).subrange(h.len() as int, (h + c2).len() as int) =~= c2);
    assert(stubs_text(a1, t) =~= h + global_fields_text(a1.global_fields@, a1.global_fields@.len()));
    assert(stubs_text(a, t) =~= h + global_fields_text(a.global_fields@, a.global_fields@.len()));
}

proof fn lemma_global_functions_prefix(a: Seq<LuaFunction>, b: Seq<LuaFunction>, n: nat)
    requires
        n <= a.len(),
        n <= b.len(),
        forall|i: int| 0 <= i < n ==> a[i] == b[i],
    ensures
        global_functions_text(a, n) == global_functions_text(b, n),
    decreases n,
{
    if n > 0 {
        lemma_global_functions_prefix(a, b, (n - 1) as nat);
    }
}

proof fn lemma_global_functions_concat(a: Seq<LuaFunction>, b: Seq<LuaFunction>, n: nat)
    requires
        n <= b.len(),
    ensures
        global_functions_text(a + b, a.len() + n) == global_functions_text(a, a.len()) + global_functions_text(b, n),
    decreases n,
{
    if n == 0 {
        lemma_global_functions_prefix(a + b, a, a.len());
        assert(global_functions_text(a, a.len()) + global_functions_text(b, 0) =~= global_functions_text(a, a.len()));
    } else {
        lemma_global_functions_concat(a, b, (n - 1) as nat);
        assert((a + b)[a.len() + n - 1] == b[n - 1]);
        assert(global_functions_text(a + b, a.len() + n) == global_functions_text(a + b, (a.len() + n - 1) as nat)
            + "\n"@ + global_function_text(b[n - 1]));
        assert(global_functions_text(a, a.len()) + global_functions_text(b, n) =~= global_functions_text(a, a.len())
            + global_functions_text(b, (n - 1) as nat) + "\n"@ + global_function_text(b[n - 1]));
    }
}

/// An API of global functions only.
pub open spec fn global_functions_only(api: LuaApi) -> bool {
    &&& api.classes@.len() == 0
    &&& api.enums@.len() == 0
    &&& api.modules@.len() == 0
    &&& api.global_fields@.len() == 0
}

/// The global functions are rendered independently: the stubs of the global functions of
/// two APIs together are the stubs of the first followed by those of the
/// second, without its `---@meta` line.
pub proof fn law_global_functions_render_independently(a1: LuaApi, a2: LuaApi, a: LuaApi, t: CodegenTarget)
    requires
        global_functions_only(a1),
        global_functions_only(a2),
        global_functions_only(a),
        a.global_functions@ == a1.global_functions@ + a2.global_functions@,
    ensures
        stubs_text(a, t) == stubs_text(a1, t) + stubs_text(a2, t).subrange(
            "---@meta\n"@.len() as int,
            stubs_text(a2, t).len() as int,
        ),
{
    reveal_strlit("---@meta\n");
    lemma_global_functions_concat(a1.global_functions@, a2.global_functions@, a2.global_functions@.len());
    let h = "---@meta\n"@;
    let c2 = global_functions_text(a2.global_functions@, a2.global_functions@.len());
    assert(stubs_text(a2, t) =~= h + c2);
    assert((h + c2).subrange(h.len() as int, (h + c2).len() as int) =~= c2);
    assert(stubs_text(a1, t) =~= h + global_functions_text(a1.global_functions@, a1.global_functions@.len()));
    assert(stubs_text(a, t) =~= h + global_functions_text(a.global_functions@, a.global_functions@.len()));
}

/// The two targets give the same stubs for an API without classes.
pub proof fn law_targets_agree_without_classes(api: LuaApi)
    requires
        api.classes@.len() == 0,
    ensures
        stubs_text(api, CodegenTarget::EmmyLua) == stubs_text(api, CodegenTarget::LuaLS),
{
    assert(classes_text(api.classes@, CodegenTarget::EmmyLua, 0) == classes_text(
        api.classes@,
        CodegenTarget::LuaLS,
        0,
    ));
}

/// The two targets write a class alike but for its header line:
/// `---@class Name` for LuaLS, `---@class (exact) Name` for EmmyLua.
pub proof fn law_targets_differ_in_class_header(c: LuaClass)
    ensures
        class_header_text(c.name@, CodegenTarget::LuaLS) == "---@class "@ + c.name@ + "\n"@,
        class_header_text(c.name@, CodegenTarget::EmmyLua) == "---@class (exact) "@ + c.name@ + "\n"@,
        forall|t: CodegenTarget| #[trigger] class_text(c, t) == crate::codegen::doc_text(c.doc)
            + class_header_text(c.name@, t) + (fields_text(c.fields@, c.fields@.len()) + "local "@
            + before_first(c.name@, "<"@) + " = {}\n"@ + methods_text(
            before_first(c.name@, "<"@),
            c.methods@,
            c.methods@.len(),
        )),
{
    reveal(class_text);
    assert forall|t: CodegenTarget| #[trigger] class_text(c, t) == crate::codegen::doc_text(c.doc)
        + class_header_text(c.name@, t) + (fields_text(c.fields@, c.fields@.len()) + "local "@
        + before_first(c.name@, "<"@) + " = {}\n"@ + methods_text(
        before_first(c.name@, "<"@),
        c.methods@,
        c.methods@.len(),
    )) by {
        assert(class_text(c, t) =~= crate::codegen::doc_text(c.doc) + class_header_text(c.name@, t)
            + (fields_text(c.fields@, c.fields@.len()) + "local "@ + before_first(c.name@, "<"@)
            + " = {}\n"@ + methods_text(before_first(c.name@, "<"@), c.methods@, c.methods@.len())));
    }
}

/// The first `n` params that are written, those not of type `nil`, in order.
pub open spec fn written_params(ps: Seq<LuaParam>, n: nat) -> Seq<LuaParam>
    decreases n,
{
    if n == 0 {
        Seq::empty()
    } else if ps[n - 1].ty@ is Nil {
        written_params(ps, (n - 1) as nat)
    } else {
        written_params(ps, (n - 1) as nat).push(ps[n - 1])
    }
}

/// The names of `ks` joined by `, `.
pub open spec fn joined_names(ks: Seq<LuaParam>) -> Seq<char>
    decreases ks.len(),
{
    if ks.len() == 0 {
        Seq::empty()
    } else if ks.len() == 1 {
        param_name_text(ks[0])
    } else {
        joined_names(ks.drop_last()) + ", "@ + param_name_text(ks.last())
    }
}

/// The annotation lines of `ks`, one after another.
pub open spec fn annotation_lines(ks: Seq<LuaParam>) -> Seq<char>
    decreases ks.len(),
{
    if ks.len() == 0 {
        Seq::empty()
    } else {
        annotation_lines(ks.drop_last()) + param_ann_text(ks.last())
    }
}

proof fn lemma_written_params(ps: Seq<LuaParam>, n: nat)
    requires
        n <= ps.len(),
    ensures
        any_param_kept(ps, n) == (written_params(ps, n).len() > 0),
        params_str_text(ps, n) == joined_names(written_params(ps, n)),
        params_ann_text(ps, n) == annotation_lines(written_params(ps, n)),
    decreases n,
{
    if n > 0 {
        lemma_written_params(ps, (n - 1) as nat);
        let w = written_params(ps, (n - 1) as nat);
        if ps[n - 1].ty@ is Nil {
            assert(param_ann_text(ps[n - 1]) =~= Seq::<char>::empty());
            assert(params_ann_text(ps, n) =~= params_ann_text(ps, (n - 1) as nat));
        } else {
            let k = w.push(ps[n - 1]);
            assert(k.drop_last() =~= w);
            assert(k.last() == ps[n - 1]);
            if w.len() == 0 {
                assert(joined_names(w) == Seq::<char>::empty());
                assert(params_str_text(ps, n) =~= param_name_text(ps[n - 1]));
            }
        }
    }
}

/// The names in a function's parameter list are those of its `---@param`
/// lines, in order: both are made of the params not of type `nil`, each
/// line starting with `---@param `, the name (`...` for a variadic one)
/// and a space.
pub proof fn law_param_names_match(ps: Seq<LuaParam>)
    ensures
        params_str_text(ps, ps.len()) == joined_names(written_params(ps, ps.len())),
        params_ann_text(ps, ps.len()) == annotation_lines(written_params(ps, ps.len())),
        forall|p: LuaParam|
            !(p.ty@ is Nil) ==> starts_with(
                #[trigger] param_ann_text(p),
                "---@param "@ + param_name_text(p) + " "@,
            ),
{
    lemma_written_params(ps, ps.len());
    assert forall|p: LuaParam| !(p.ty@ is Nil) implies starts_with(
        #[trigger] param_ann_text(p),
        "---@param "@ + param_name_text(p) + " "@,
    ) by {
        let h = "---@param "@ + param_name_text(p) + " "@;
        match p.ty@ {
            LuaTy::Variadic(inner) => {
                reveal_strlit("---@param ... ");
                reveal_strlit("---@param ");
                reveal_strlit("...");
                reveal_strlit(" ");
                assert(param_ann_text(p).subrange(0, h.len() as int) =~= h);
            },
            t => {
                assert(param_ann_text(p).subrange(0, h.len() as int) =~= h);
            },
        }
    }
}

/// A class header line: `---@class (exact) Name` when `exact`, else
/// `---@class Name`.
pub open spec fn header_line(name: Seq<char>, exact: bool) -> Seq<char> {
    if exact {
        "---@class (exact) "@ + name + "\n"@
    } else {
        "---@class "@ + name + "\n"@
    }
}

/// The text of class `c` with its header written as `header_line` gives it.
pub open spec fn class_with_header(c: LuaClass, exact: bool) -> Seq<char> {
    crate::codegen::doc_text(c.doc) + header_line(c.name@, exact) + (fields_text(c.fields@, c.fields@.len())
        + "local "@ + before_first(c.name@, "<"@) + " = {}\n"@ + methods_text(
        before_first(c.name@, "<"@),
        c.methods@,
        c.methods@.len(),
    ))
}

pub open spec fn classes_with_headers(cs: Seq<LuaClass>, exact: bool, n: nat) -> Seq<char>
    decreases n,
{
    if n == 0 {
        Seq::empty()
    } else {
        classes_with_headers(cs, exact, (n - 1) as nat) + "\n"@ + class_with_header(cs[n - 1], exact)
    }
}

/// The stubs of `api` with every class header written as `header_line`
/// gives it, and every other line the same whatever the headers.
pub open spec fn stubs_with_headers(api: LuaApi, exact: bool) -> Seq<char> {
    "---@meta\n"@ + enums_text(api.enums@, api.enums@.len()) + classes_with_headers(
        api.classes@,
        exact,
        api.classes@.len(),
    ) + modules_text(api.modules@, api.modules@.len()) + global_fields_text(
        api.global_fields@,
        api.global_fields@.len(),
    ) + global_functions_text(api.global_functions@, api.global_functions@.len())
}

proof fn lemma_classes_with_headers(cs: Seq<LuaClass>, n: nat)
    requires
        n <= cs.len(),
    ensures
        classes_text(cs, CodegenTarget::LuaLS, n) == classes_with_headers(cs, false, n),
        classes_text(cs, CodegenTarget::EmmyLua, n) == classes_with_headers(cs, true, n),
    decreases n,
{
    if n > 0 {
        lemma_classes_with_headers(cs, (n - 1) as nat);
        law_targets_differ_in_class_header(cs[n - 1]);
        assert(class_text(cs[n - 1], CodegenTarget::LuaLS) == class_with_header(cs[n - 1], false));
        assert(class_text(cs[n - 1], CodegenTarget::EmmyLua) == class_with_header(cs[n - 1], true));
    }
}

/// The whole LuaLS and EmmyLua stubs of an API differ only in the class
/// header lines: both are the same text with each class header written
/// `---@class Name` for LuaLS and `---@class (exact) Name` for EmmyLua.
pub proof fn law_targets_differ_only_in_class_headers(api: LuaApi)
    ensures
        stubs_text(api, CodegenTarget::LuaLS) == stubs_with_headers(api, false),
        stubs_text(api, CodegenTarget::EmmyLua) == stubs_with_headers(api, true),
{
    lemma_classes_with_headers(api.classes@, api.classes@.len());
}

/// `s` split at every `, `: the parts before, between and after the
/// occurrences, nothing for the empty text.
pub open spec fn split_list(s: Seq<char>) -> Seq<Seq<char>>
    decreases s.len(),
{
    match rfind(s, ", "@) {
        None => if s.len() == 0 {
            Seq::empty()
        } else {
            seq![s]
        },
        Some(i) => {
            proof {
                lemma_find_sound(s, ", "@);
                reveal_strlit(", ");
            }
            if 0 <= i && i < s.len() {
                split_list(s.take(i)).push(s.skip(i + 2))
            } else {
                Seq::empty()
            }
        },
    }
}

/// The names of `ks` in order, `...` for a variadic one.
pub open spec fn param_names(ks: Seq<LuaParam>) -> Seq<Seq<char>> {
    Seq::new(ks.len(), |i: int| param_name_text(ks[i]))
}

/// A name that splitting at `, ` keeps whole.
pub open spec fn listable_name(n: Seq<char>) -> bool {
    n.len() > 0 && forall|i: int| 0 <= i < n.len() ==> #[trigger] n[i] != ','
}

proof fn lemma_split_list_joined(ks: Seq<LuaParam>)
    requires
        forall|i: int| 0 <= i < ks.len() ==> listable_name(param_name_text(#[trigger] ks[i])),
    ensures
        split_list(joined_names(ks)) == param_names(ks),
    decreases ks.len(),
{
    reveal_strlit(", ");
    let sep = ", "@;
    assert(sep.len() == 2 && sep[0] == ',' && sep[1] == ' ');
    if ks.len() == 0 {
        assert(rfind(Seq::<char>::empty(), sep) is None) by {
            lemma_rfind_upto_none(Seq::<char>::empty(), sep, -2);
        }
        assert(param_names(ks) =~= Seq::<Seq<char>>::empty());
    } else if ks.len() == 1 {
        let n = param_name_text(ks[0]);
        assert(listable_name(n));
        assert(rfind(n, sep) is None) by {
            assert forall|j: int| 0 <= j <= n.len() - sep.len() implies !matches_at(n, sep, j) by {
                if matches_at(n, sep, j) {
                    assert(n.subrange(j, j + 2)[0] == n[j]);
                }
            }
            lemma_rfind_upto_none(n, sep, n.len() - sep.len());
        }
        assert(param_names(ks) =~= seq![n]);
    } else {
        let r = ks.drop_last();
        assert forall|i: int| 0 <= i < r.len() implies listable_name(param_name_text(#[trigger] r[i])) by {
            assert(r[i] == ks[i]);
        }
        lemma_split_list_joined(r);
        let a = joined_names(r);
        let b = param_name_text(ks.last());
        assert(listable_name(param_name_text(ks[ks.len() - 1])));
        let s = a + sep + b;
        assert(joined_names(ks) == s);
        assert(matches_at(s, sep, a.len() as int)) by {
            assert(s.subrange(a.len() as int, a.len() + 2int) =~= sep);
        }
        assert forall|j: int| a.len() < j <= s.len() - sep.len() implies !matches_at(s, sep, j) by {
            if matches_at(s, sep, j) {
                assert(s.subrange(j, j + 2)[0] == s[j]);
                if j == a.len() + 1 {
                    assert(s[j] == ' ');
                } else {
                    assert(s[j] == b[j - a.len() - 2]);
                }
            }
        }
        lemma_rfind_upto_some(s, sep, s.len() - sep.len(), a.len() as int);
        assert(s.take(a.len() as int) =~= a);
        assert(s.skip(a.len() + 2int) =~= b);
        assert(param_names(ks) =~= param_names(r).push(b));
    }
}

/// Split at `, `, the parameter list of a function gives the names of its
/// `---@param` lines, in order: those of the params not of type `nil`
/// (`...` for a variadic one), when each such name is non-empty and holds
/// no comma.
pub proof fn law_param_list_splits_into_line_names(ps: Seq<LuaParam>)
    requires
        forall|i: int|
            0 <= i < ps.len() && !(ps[i].ty@ is Nil) ==> listable_name(param_name_text(#[trigger] ps[i])),
    ensures
        split_list(params_str_text(ps, ps.len())) == param_names(written_params(ps, ps.len())),
        params_ann_text(ps, ps.len()) == annotation_lines(written_params(ps, ps.len())),
        forall|i: int|
            0 <= i < written_params(ps, ps.len()).len() ==> starts_with(
                #[trigger] param_ann_text(written_params(ps, ps.len())[i]),
                "---@param "@ + param_names(written_params(ps, ps.len()))[i] + " "@,
            ),
{
    law_param_names_match(ps);
    lemma_written_members(ps, ps.len());
    let w = written_params(ps, ps.len());
    assert forall|i: int| 0 <= i < w.len() implies listable_name(param_name_text(#[trigger] w[i])) by {
        let j = choose|j: int| 0 <= j < ps.len() && ps[j] == w[i] && !(ps[j].ty@ is Nil);
        assert(listable_name(param_name_text(ps[j])));
    }
    lemma_split_list_joined(w);
    assert forall|i: int| 0 <= i < w.len() implies starts_with(
        #[trigger] param_ann_text(w[i]),
        "---@param "@ + param_names(w)[i] + " "@,
    ) by {
        let j = choose|j: int| 0 <= j < ps.len() && ps[j] == w[i] && !(ps[j].ty@ is Nil);
        assert(!(w[i].ty@ is Nil));
    }
}

proof fn lemma_written_members(ps: Seq<LuaParam>, n: nat)
    requires
        n <= ps.len(),
    ensures
        forall|i: int|
            0 <= i < written_params(ps, n).len() ==> exists|j: int|
                0 <= j < n && ps[j] == #[trigger] written_params(ps, n)[i] && !(ps[j].ty@ is Nil),
    decreases n,
{
    if n > 0 {
        lemma_written_members(ps, (n - 1) as nat);
        let w = written_params(ps, (n - 1) as nat);
        assert forall|i: int| 0 <= i < written_params(ps, n).len() implies exists|j: int|
            0 <= j < n && ps[j] == #[trigger] written_params(ps, n)[i] && !(ps[j].ty@ is Nil) by {
            if i < w.len() {
                assert(written_params(ps, n)[i] == w[i]);
                let j = choose|j: int| 0 <= j < n - 1 && ps[j] == #[trigger] w[i] && !(ps[j].ty@ is Nil);
            } else {
                assert(written_params(ps, n)[i] == ps[n - 1]);
            }
        }
    }
}

// ── names of things ───────────────────────────────────────────────────

/// `c` in lower case, for ASCII letters.
pub open spec fn lower_char(c: char) -> char {
    if 'A' <= c && c <= 'Z' {
        ((c as u32) + 32) as char
    } else {
        c
    }
}

/// `s` in lower case, for ASCII letters.
pub open spec fn ascii_lower(s: Seq<char>) -> Seq<char> {
    Seq::new(s.len(), |i: int| lower_char(s[i]))
}

/// The variants of mlua's `MetaMethod`.
pub open spec fn known_metamethod(v: Seq<char>) -> bool {
    v == "Add"@ || v == "Sub"@ || v == "Mul"@ || v == "Div"@ || v == "Mod"@ || v == "Pow"@ || v == "Unm"@ || v == "IDiv"@ || v == "BAnd"@ || v == "BOr"@ || v == "BXor"@ || v == "BNot"@ || v == "Shl"@ || v == "Shr"@ || v == "Concat"@ || v == "Len"@ || v == "Eq"@ || v == "Lt"@ || v == "Le"@ || v == "Index"@ || v == "NewIndex"@ || v == "Call"@ || v == "ToString"@ || v == "Pairs"@ || v == "IPairs"@ || v == "Gt"@ || v == "Ge"@ || v == "Iter"@ || v == "Close"@
}

proof fn lemma_meta_add()
    ensures
        meta_name("Add"@) == "__"@ + ascii_lower("Add"@),
{
    reveal_strlit("Add");
    reveal_strlit("__add");
    reveal_strlit("__");
    assert(meta_name("Add"@) =~= "__"@ + ascii_lower("Add"@));
}

proof fn lemma_meta_sub()
    ensures
        meta_name("Sub"@) == "__"@ + ascii_lower("Sub"@),
{
    reveal_strlit("Add");
    reveal_strlit("Sub");
    reveal_strlit("__sub");
    reveal_strlit("__");
    assert("Sub"@[0] != "Add"@[0]);
    assert(meta_name("Sub"@) =~= "__"@ + ascii_lower("Sub"@));
}

proof fn lemma_meta_mul()
    ensures
        meta_name("Mul"@) == "__"@ + ascii_lower("Mul"@),
{
    reveal_strlit("Add");
    reveal_strlit("Sub");
    reveal_strlit("Mul");
    reveal_strlit("__mul");
    reveal_strlit("__");
    assert("Mul"@[0] != "Add"@[0]);
    assert("Mul"@[0] != "Sub"@[0]);
    assert(meta_name("Mul"@) =~= "__"@ + ascii_lower("Mul"@));
}

proof fn lemma_meta_div()
    ensures
        meta_name("Div"@) == "__"@ + ascii_lower("Div"@),
{
    reveal_strlit("Add");
    reveal_strlit("Sub");
    reveal_strlit("Mul");
    reveal_strlit("Div");
    reveal_strlit("__div");
    reveal_strlit("__");
    assert("Div"@[0] != "Add"@[0]);
    assert("Div"@[0] != "Sub"@[0]);
    assert("Div"@[0] != "Mul"@[0]);
    assert(meta_name("Div"@) =~= "__"@ + ascii_lower("Div"@));
}

proof fn lemma_meta_mod()
    ensures
        meta_name("Mod"@) == "__"@ + ascii_lower("Mod"@),
{
    reveal_strlit("Add");
    reveal_strlit("Sub");
    reveal_strlit("Mul");
    reveal_strlit("Div");
    reveal_strlit("Mod");
    reveal_strlit("__mod");
    reveal_strlit("__");
    assert("Mod"@[0] != "Add"@[0]);
    assert("Mod"@[0] != "Sub"@[0]);
    assert("Mod"@[1] != "Mul"@[1]);
    assert("Mod"@[0] != "Div"@[0]);
    assert(meta_name("Mod"@) =~= "__"@ + ascii_lower("Mod"@));
}

proof fn lemma_meta_pow()
    ensures
        meta_name("Pow"@) == "__"@ + ascii_lower("Pow"@),
{
    reveal_strlit("Add");
    reveal_strlit("Sub");
    reveal_strlit("Mul");
    reveal_strlit("Div");
    reveal_strlit("Mod");
    reveal_strlit("Pow");
    reveal_strlit("__pow");
    reveal_strlit("__");
    assert("Pow"@[0] != "Add"@[0]);
    assert("Pow"@[0] != "Sub"@[0]);
    assert("Pow"@[0] != "Mul"@[0]);
    assert("Pow"@[0] != "Div"@[0]);
    assert("Pow"@[0] != "Mod"@[0]);
    assert(meta_name("Pow"@) =~= "__"@ + ascii_lower("Pow"@));
}

proof fn lemma_meta_unm()
    ensures
        meta_name("Unm"@) == "__"@ + ascii_lower("Unm"@),
{
    reveal_strlit("Add");
    reveal_strlit("Sub");
    reveal_strlit("Mul");
    reveal_strlit("Div");
    reveal_strlit("Mod");
    reveal_strlit("Pow");
    reveal_strlit("Unm");
    reveal_strlit("__unm");
    reveal_strlit("__");
    assert("Unm"@[0] != "Add"@[0]);
    assert("Unm"@[0] != "Sub"@[0]);
    assert("Unm"@[0] != "Mul"@[0]);
    assert("Unm"@[0] != "Div"@[0]);
    assert("Unm"@[0] != "Mod"@[0]);
    assert("Unm"@[0] != "Pow"@[0]);
    assert(meta_name("Unm"@) =~= "__"@ + ascii_lower("Unm"@));
}

proof fn lemma_meta_idiv()
    ensures
        meta_name("IDiv"@) == "__"@ + ascii_lower("IDiv"@),
{
    reveal_strlit("Add");
    reveal_strlit("Sub");
    reveal_strlit("Mul");
    reveal_strlit("Div");
    reveal_strlit("Mod");
    reveal_strlit("Pow");
    reveal_strlit("Unm");
    reveal_strlit("IDiv");
    reveal_strlit("__idiv");
    reveal_strlit("__");
    assert("IDiv"@.len() != "Add"@.len());
    assert("IDiv"@.len() != "Sub"@.len());
    assert("IDiv"@.len() != "Mul"@.len());
    assert("IDiv"@.len() != "Div"@.len());
    assert("IDiv"@.len() != "Mod"@.len());
    assert("IDiv"@.len() != "Pow"@.len());
    assert("IDiv"@.len() != "Unm"@.len());
    assert(meta_name("IDiv"@) =~= "__"@ + ascii_lower("IDiv"@));
}

proof fn lemma_meta_band()
    ensures
        meta_name("BAnd"@) == "__"@ + ascii_lower("BAnd"@),
{
    reveal_strlit("Add");
    reveal_strlit("Sub");
    reveal_strlit("Mul");
    reveal_strlit("Div");
    reveal_strlit("Mod");
    reveal_strlit("Pow");
    reveal_strlit("Unm");
    reveal_strlit("IDiv");
    reveal_strlit("BAnd");
    reveal_strlit("__band");
    reveal_strlit("__");
    assert("BAnd"@.len() != "Add"@.len());
    assert("BAnd"@.len() != "Sub"@.len());
    assert("BAnd"@.len() != "Mul"@.len());
    assert("BAnd"@.len() != "Div"@.len());
    assert("BAnd"@.len() != "Mod"@.len());
    assert("BAnd"@.len() != "Pow"@.len());
    assert("BAnd"@.len() != "Unm"@.len());
    assert("BAnd"@[0] != "IDiv"@[0]);
    assert(meta_name("BAnd"@) =~= "__"@ + ascii_lower("BAnd"@));
}

proof fn lemma_meta_bor()
    ensures
        meta_name("BOr"@) == "__"@ + ascii_lower("BOr"@),
{
    reveal_strlit("Add");
    reveal_strlit("Sub");
    reveal_strlit("Mul");
    reveal_strlit("Div");
    reveal_strlit("Mod");
    reveal_strlit("Pow");
    reveal_strlit("Unm");
    reveal_strlit("IDiv");
    reveal_strlit("BAnd");
    reveal_strlit("BOr");
    reveal_strlit("__bor");
    reveal_strlit("__");
    assert("BOr"@[0] != "Add"@[0]);
    assert("BOr"@[0] != "Sub"@[0]);
    assert("BOr"@[0] != "Mul"@[0]);
    assert("BOr"@[0] != "Div"@[0]);
    assert("BOr"@[0] != "Mod"@[0]);
    assert("BOr"@[0] != "Pow"@[0]);
    assert("BOr"@[0] != "Unm"@[0]);
    assert("BOr"@.len() != "IDiv"@.len());
    assert("BOr"@.len() != "BAnd"@.len());
    assert(meta_name("BOr"@) =~= "__"@ + ascii_lower("BOr"@));
}

proof fn lemma_meta_bxor()
    ensures
        meta_name("BXor"@) == "__"@ + ascii_lower("BXor"@),
{
    reveal_strlit("Add");
    reveal_strlit("Sub");
    reveal_strlit("Mul");
    reveal_strlit("Div");
    reveal_strlit("Mod");
    reveal_strlit("Pow");
    reveal_strlit("Unm");
    reveal_strlit("IDiv");
    reveal_strlit("BAnd");
    reveal_strlit("BOr");
    reveal_strlit("BXor");
    reveal_strlit("__bxor");
    reveal_strlit("__");
    assert("BXor"@.len() != "Add"@.len());
    assert("BXor"@.len() != "Sub"@.len());
    assert("BXor"@.len() != "Mul"@.len());
    assert("BXor"@.len() != "Div"@.len());
    assert("BXor"@.len() != "Mod"@.len());
    assert("BXor"@.len() != "Pow"@.len());
    assert("BXor"@.len() != "Unm"@.len());
    assert("BXor"@[0] != "IDiv"@[0]);
    assert("BXor"@[1] != "BAnd"@[1]);
    assert("BXor"@.len() != "BOr"@.len());
    assert(meta_name("BXor"@) =~= "__"@ + ascii_lower("BXor"@));
}

proof fn lemma_meta_bnot()
    ensures
        meta_name("BNot"@) == "__"@ + ascii_lower("BNot"@),
{
    reveal_strlit("Add");
    reveal_strlit("Sub");
    reveal_strlit("Mul");
    reveal_strlit("Div");
    reveal_strlit("Mod");
    reveal_strlit("Pow");
    reveal_strlit("Unm");
    reveal_strlit("IDiv");
    reveal_strlit("BAnd");
    reveal_strlit("BOr");
    reveal_strlit("BXor");
    reveal_strlit("BNot");
    reveal_strlit("__bnot");
    reveal_strlit("__");
    assert("BNot"@.len() != "Add"@.len());
    assert("BNot"@.len() != "Sub"@.len());
    assert("BNot"@.len() != "Mul"@.len());
    assert("BNot"@.len() != "Div"@.len());
    assert("BNot"@.len() != "Mod"@.len());
    assert("BNot"@.len() != "Pow"@.len());
    assert("BNot"@.len() != "Unm"@.len());
    assert("BNot"@[0] != "IDiv"@[0]);
    assert("BNot"@[1] != "BAnd"@[1]);
    assert("BNot"@.len() != "BOr"@.len());
    assert("BNot"@[1] != "BXor"@[1]);
    assert(meta_name("BNot"@) =~= "__"@ + ascii_lower("BNot"@));
}

proof fn lemma_meta_shl()
    ensures
        meta_name("Shl"@) == "__"@ + ascii_lower("Shl"@),
{
    reveal_strlit("Add");
    reveal_strlit("Sub");
    reveal_strlit("Mul");
    reveal_strlit("Div");
    reveal_strlit("Mod");
    reveal_strlit("Pow");
    reveal_strlit("Unm");
    reveal_strlit("IDiv");
    reveal_strlit("BAnd");
    reveal_strlit("BOr");
    reveal_strlit("BXor");
    reveal_strlit("BNot");
    reveal_strlit("Shl");
    reveal_strlit("__shl");
    reveal_strlit("__");
    assert("Shl"@[0] != "Add"@[0]);
    assert("Shl"@[1] != "Sub"@[1]);
    assert("Shl"@[0] != "Mul"@[0]);
    assert("Shl"@[0] != "Div"@[0]);
    assert("Shl"@[0] != "Mod"@[0]);
    assert("Shl"@[0] != "Pow"@[0]);
    assert("Shl"@[0] != "Unm"@[0]);
    assert("Shl"@.len() != "IDiv"@.len());
    assert("Shl"@.len() != "BAnd"@.len());
    assert("Shl"@[0] != "BOr"@[0]);
    assert("Shl"@.len() != "BXor"@.len());
    assert("Shl"@.len() != "BNot"@.len());
    assert(meta_name("Shl"@) =~= "__"@ + ascii_lower("Shl"@));
}

proof fn lemma_meta_shr()
    ensures
        meta_name("Shr"@) == "__"@ + ascii_lower("Shr"@),
{
    reveal_strlit("Add");
    reveal_strlit("Sub");
    reveal_strlit("Mul");
    reveal_strlit("Div");
    reveal_strlit("Mod");
    reveal_strlit("Pow");
    reveal_strlit("Unm");
    reveal_strlit("IDiv");
    reveal_strlit("BAnd");
    reveal_strlit("BOr");
    reveal_strlit("BXor");
    reveal_strlit("BNot");
    reveal_strlit("Shl");
    reveal_strlit("Shr");
    reveal_strlit("__shr");
    reveal_strlit("__");
    assert("Shr"@[0] != "Add"@[0]);
    assert("Shr"@[1] != "Sub"@[1]);
    assert("Shr"@[0] != "Mul"@[0]);
    assert("Shr"@[0] != "Div"@[0]);
    assert("Shr"@[0] != "Mod"@[0]);
    assert("Shr"@[0] != "Pow"@[0]);
    assert("Shr"@[0] != "Unm"@[0]);
    assert("Shr"@.len() != "IDiv"@.len());
    assert("Shr"@.len() != "BAnd"@.len());
    assert("Shr"@[0] != "BOr"@[0]);
    assert("Shr"@.len() != "BXor"@.len());
    assert("Shr"@.len() != "BNot"@.len());
    assert("Shr"@[2] != "Shl"@[2]);
    assert(meta_name("Shr"@) =~= "__"@ + ascii_lower("Shr"@));
}

proof fn lemma_meta_concat()
    ensures
        meta_name("Concat"@) == "__"@ + ascii_lower("Concat"@),
{
    reveal_strlit("Add");
    reveal_strlit("Sub");
    reveal_strlit("Mul");
    reveal_strlit("Div");
    reveal_strlit("Mod");
    reveal_strlit("Pow");
    reveal_strlit("Unm");
    reveal_strlit("IDiv");
    reveal_strlit("BAnd");
    reveal_strlit("BOr");
    reveal_strlit("BXor");
    reveal_strlit("BNot");
    reveal_strlit("Shl");
    reveal_strlit("Shr");
    reveal_strlit("Concat");
    reveal_strlit("__concat");
    reveal_strlit("__");
    assert("Concat"@.len() != "Add"@.len());
    assert("Concat"@.len() != "Sub"@.len());
    assert("Concat"@.len() != "Mul"@.len());
    assert("Concat"@.len() != "Div"@.len());
    assert("Concat"@.len() != "Mod"@.len());
    assert("Concat"@.len() != "Pow"@.len());
    assert("Concat"@.len() != "Unm"@.len());
    assert("Concat"@.len() != "IDiv"@.len());
    assert("Concat"@.len() != "BAnd"@.len());
    assert("Concat"@.len() != "BOr"@.len());
    assert("Concat"@.len() != "BXor"@.len());
    assert("Concat"@.len() != "BNot"@.len());
    assert("Concat"@.len() != "Shl"@.len());
    assert("Concat"@.len() != "Shr"@.len());
    assert(meta_name("Concat"@) =~= "__"@ + ascii_lower("Concat"@));
}

proof fn lemma_meta_len()
    ensures
        meta_name("Len"@) == "__"@ + ascii_lower("Len"@),
{
    reveal_strlit("Add");
    reveal_strlit("Sub");
    reveal_strlit("Mul");
    reveal_strlit("Div");
    reveal_strlit("Mod");
    reveal_strlit("Pow");
    reveal_strlit("Unm");
    reveal_strlit("IDiv");
    reveal_strlit("BAnd");
    reveal_strlit("BOr");
    reveal_strlit("BXor");
    reveal_strlit("BNot");
    reveal_strlit("Shl");
    reveal_strlit("Shr");
    reveal_strlit("Concat");
    reveal_strlit("Len");
    reveal_strlit("__len");
    reveal_strlit("__");
    assert("Len"@[0] != "Add"@[0]);
    assert("Len"@[0] != "Sub"@[0]);
    assert("Len"@[0] != "Mul"@[0]);
    assert("Len"@[0] != "Div"@[0]);
    assert("Len"@[0] != "Mod"@[0]);
    assert("Len"@[0] != "Pow"@[0]);
    assert("Len"@[0] != "Unm"@[0]);
    assert("Len"@.len() != "IDiv"@.len());
    assert("Len"@.len() != "BAnd"@.len());
    assert("Len"@[0] != "BOr"@[0]);
    assert("Len"@.len() != "BXor"@.len());
    assert("Len"@.len() != "BNot"@.len());
    assert("Len"@[0] != "Shl"@[0]);
    assert("Len"@[0] != "Shr"@[0]);
    assert("Len"@.len() != "Concat"@.len());
    assert(meta_name("Len"@) =~= "__"@ + ascii_lower("Len"@));
}

proof fn lemma_meta_eq()
    ensures
        meta_name("Eq"@) == "__"@ + ascii_lower("Eq"@),
{
    reveal_strlit("Add");
    reveal_strlit("Sub");
    reveal_strlit("Mul");
    reveal_strlit("Div");
    reveal_strlit("Mod");
    reveal_strlit("Pow");
    reveal_strlit("Unm");
    reveal_strlit("IDiv");
    reveal_strlit("BAnd");
    reveal_strlit("BOr");
    reveal_strlit("BXor");
    reveal_strlit("BNot");
    reveal_strlit("Shl");
    reveal_strlit("Shr");
    reveal_strlit("Concat");
    reveal_strlit("Len");
    reveal_strlit("Eq");
    reveal_strlit("__eq");
    reveal_strlit("__");
    assert("Eq"@.len() != "Add"@.len());
    assert("Eq"@.len() != "Sub"@.len());
    assert("Eq"@.len() != "Mul"@.len());
    assert("Eq"@.len() != "Div"@.len());
    assert("Eq"@.len() != "Mod"@.len());
    assert("Eq"@.len() != "Pow"@.len());
    assert("Eq"@.len() != "Unm"@.len());
    assert("Eq"@.len() != "IDiv"@.len());
    assert("Eq"@.len() != "BAnd"@.len());
    assert("Eq"@.len() != "BOr"@.len());
    assert("Eq"@.len() != "BXor"@.len());
    assert("Eq"@.len() != "BNot"@.len());
    assert("Eq"@.len() != "Shl"@.len());
    assert("Eq"@.len() != "Shr"@.len());
    assert("Eq"@.len() != "Concat"@.len());
    assert("Eq"@.len() != "Len"@.len());
    assert(meta_name("Eq"@) =~= "__"@ + ascii_lower("Eq"@));
}

proof fn lemma_meta_lt()
    ensures
        meta_name("Lt"@) == "__"@ + ascii_lower("Lt"@),
{
    reveal_strlit("Add");
    reveal_strlit("Sub");
    reveal_strlit("Mul");
    reveal_strlit("Div");
    reveal_strlit("Mod");
    reveal_strlit("Pow");
    reveal_strlit("Unm");
    reveal_strlit("IDiv");
    reveal_strlit("BAnd");
    reveal_strlit("BOr");
    reveal_strlit("BXor");
    reveal_strlit("BNot");
    reveal_strlit("Shl");
    reveal_strlit("Shr");
    reveal_strlit("Concat");
    reveal_strlit("Len");
    reveal_strlit("Eq");
    reveal_strlit("Lt");
    reveal_strlit("__lt");
    reveal_strlit("__");
    assert("Lt"@.len() != "Add"@.len());
    assert("Lt"@.len() != "Sub"@.len());
    assert("Lt"@.len() != "Mul"@.len());
    assert("Lt"@.len() != "Div"@.len());
    assert("Lt"@.len() != "Mod"@.len());
    assert("Lt"@.len() != "Pow"@.len());
    assert("Lt"@.len() != "Unm"@.len());
    assert("Lt"@.len() != "IDiv"@.len());
    assert("Lt"@.len() != "BAnd"@.len());
    assert("Lt"@.len() != "BOr"@.len());
    assert("Lt"@.len() != "BXor"@.len());
    assert("Lt"@.len() != "BNot"@.len());
    assert("Lt"@.len() != "Shl"@.len());
    assert("Lt"@.len() != "Shr"@.len());
    assert("Lt"@.len() != "Concat"@.len());
    assert("Lt"@.len() != "Len"@.len());
    assert("Lt"@[0] != "Eq"@[0]);
    assert(meta_name("Lt"@) =~= "__"@ + ascii_lower("Lt"@));
}

proof fn lemma_meta_le()
    ensures
        meta_name("Le"@) == "__"@ + ascii_lower("Le"@),
{
    reveal_strlit("Add");
    reveal_strlit("Sub");
    reveal_strlit("Mul");
    reveal_strlit("Div");
    reveal_strlit("Mod");
    reveal_strlit("Pow");
    reveal_strlit("Unm");
    reveal_strlit("IDiv");
    reveal_strlit("BAnd");
    reveal_strlit("BOr");
    reveal_strlit("BXor");
    reveal_strlit("BNot");
    reveal_strlit("Shl");
    reveal_strlit("Shr");
    reveal_strlit("Concat");
    reveal_strlit("Len");
    reveal_strlit("Eq");
    reveal_strlit("Lt");
    reveal_strlit("Le");
    reveal_strlit("__le");
    reveal_strlit("__");
    assert("Le"@.len() != "Add"@.len());
    assert("Le"@.len() != "Sub"@.len());
    assert("Le"@.len() != "Mul"@.len());
    assert("Le"@.len() != "Div"@.len());
    assert("Le"@.len() != "Mod"@.len());
    assert("Le"@.len() != "Pow"@.len());
    assert("Le"@.len() != "Unm"@.len());
    assert("Le"@.len() != "IDiv"@.len());
    assert("Le"@.len() != "BAnd"@.len());
    assert("Le"@.len() != "BOr"@.len());
    assert("Le"@.len() != "BXor"@.len());
    assert("Le"@.len() != "BNot"@.len());
    assert("Le"@.len() != "Shl"@.len());
    assert("Le"@.len() != "Shr"@.len());
    assert("Le"@.len() != "Concat"@.len());
    assert("Le"@.len() != "Len"@.len());
    assert("Le"@[0] != "Eq"@[0]);
    assert("Le"@[1] != "Lt"@[1]);
    assert(meta_name("Le"@) =~= "__"@ + ascii_lower("Le"@));
}

proof fn lemma_meta_index()
    ensures
        meta_name("Index"@) == "__"@ + ascii_lower("Index"@),
{
    reveal_strlit("Add");
    reveal_strlit("Sub");
    reveal_strlit("Mul");
    reveal_strlit("Div");
    reveal_strlit("Mod");
    reveal_strlit("Pow");
    reveal_strlit("Unm");
    reveal_strlit("IDiv");
    reveal_strlit("BAnd");
    reveal_strlit("BOr");
    reveal_strlit("BXor");
    reveal_strlit("BNot");
    reveal_strlit("Shl");
    reveal_strlit("Shr");
    reveal_strlit("Concat");
    reveal_strlit("Len");
    reveal_strlit("Eq");
    reveal_strlit("Lt");
    reveal_strlit("Le");
    reveal_strlit("Index");
    reveal_strlit("__index");
    reveal_strlit("__");
    assert("Index"@.len() != "Add"@.len());
    assert("Index"@.len() != "Sub"@.len());
    assert("Index"@.len() != "Mul"@.len());
    assert("Index"@.len() != "Div"@.len());
    assert("Index"@.len() != "Mod"@.len());
    assert("Index"@.len() != "Pow"@.len());
    assert("Index"@.len() != "Unm"@.len());
    assert("Index"@.len() != "IDiv"@.len());
    assert("Index"@.len() != "BAnd"@.len());
    assert("Index"@.len() != "BOr"@.len());
    assert("Index"@.len() != "BXor"@.len());
    assert("Index"@.len() != "BNot"@.len());
    assert("Index"@.len() != "Shl"@.len());
    assert("Index"@.len() != "Shr"@.len());
    assert("Index"@.len() != "Concat"@.len());
    assert("Index"@.len() != "Len"@.len());
    assert("Index"@.len() != "Eq"@.len());
    assert("Index"@.len() != "Lt"@.len());
    assert("Index"@.len() != "Le"@.len());
    assert(meta_name("Index"@) =~= "__"@ + ascii_lower("Index"@));
}

proof fn lemma_meta_newindex()
    ensures
        meta_name("NewIndex"@) == "__"@ + ascii_lower("NewIndex"@),
{
    reveal_strlit("Add");
    reveal_strlit("Sub");
    reveal_strlit("Mul");
    reveal_strlit("Div");
    reveal_strlit("Mod");
    reveal_strlit("Pow");
    reveal_strlit("Unm");
    reveal_strlit("IDiv");
    reveal_strlit("BAnd");
    reveal_strlit("BOr");
    reveal_strlit("BXor");
    reveal_strlit("BNot");
    reveal_strlit("Shl");
    reveal_strlit("Shr");
    reveal_strlit("Concat");
    reveal_strlit("Len");
    reveal_strlit("Eq");
    reveal_strlit("Lt");
    reveal_strlit("Le");
    reveal_strlit("Index");
    reveal_strlit("NewIndex");
    reveal_strlit("__newindex");
    reveal_strlit("__");
    assert("NewIndex"@.len() != "Add"@.len());
    assert("NewIndex"@.len() != "Sub"@.len());
    assert("NewIndex"@.len() != "Mul"@.len());
    assert("NewIndex"@.len() != "Div"@.len());
    assert("NewIndex"@.len() != "Mod"@.len());
    assert("NewIndex"@.len() != "Pow"@.len());
    assert("NewIndex"@.len() != "Unm"@.len());
    assert("NewIndex"@.len() != "IDiv"@.len());
    assert("NewIndex"@.len() != "BAnd"@.len());
    assert("NewIndex"@.len() != "BOr"@.len());
    assert("NewIndex"@.len() != "BXor"@.len());
    assert("NewIndex"@.len() != "BNot"@.len());
    assert("NewIndex"@.len() != "Shl"@.len());
    assert("NewIndex"@.len() != "Shr"@.len());
    assert("NewIndex"@.len() != "Concat"@.len());
    assert("NewIndex"@.len() != "Len"@.len());
    assert("NewIndex"@.len() != "Eq"@.len());
    assert("NewIndex"@.len() != "Lt"@.len());
    assert("NewIndex"@.len() != "Le"@.len());
    assert("NewIndex"@.len() != "Index"@.len());
    assert(meta_name("NewIndex"@) =~= "__"@ + ascii_lower("NewIndex"@));
}

proof fn lemma_meta_call()
    ensures
        meta_name("Call"@) == "__"@ + ascii_lower("Call"@),
{
    reveal_strlit("Add");
    reveal_strlit("Sub");
    reveal_strlit("Mul");
    reveal_strlit("Div");
    reveal_strlit("Mod");
    reveal_strlit("Pow");
    reveal_strlit("Unm");
    reveal_strlit("IDiv");
    reveal_strlit("BAnd");
    reveal_strlit("BOr");
    reveal_strlit("BXor");
    reveal_strlit("BNot");
    reveal_strlit("Shl");
    reveal_strlit("Shr");
    reveal_strlit("Concat");
    reveal_strlit("Len");
    reveal_strlit("Eq");
    reveal_strlit("Lt");
    reveal_strlit("Le");
    reveal_strlit("Index");
    reveal_strlit("NewIndex");
    reveal_strlit("Call");
    reveal_strlit("__call");
    reveal_strlit("__");
    assert("Call"@.len() != "Add"@.len());
    assert("Call"@.len() != "Sub"@.len());
    assert("Call"@.len() != "Mul"@.len());
    assert("Call"@.len() != "Div"@.len());
    assert("Call"@.len() != "Mod"@.len());
    assert("Call"@.len() != "Pow"@.len());
    assert("Call"@.len() != "Unm"@.len());
    assert("Call"@[0] != "IDiv"@[0]);
    assert("Call"@[0] != "BAnd"@[0]);
    assert("Call"@.len() != "BOr"@.len());
    assert("Call"@[0] != "BXor"@[0]);
    assert("Call"@[0] != "BNot"@[0]);
    assert("Call"@.len() != "Shl"@.len());
    assert("Call"@.len() != "Shr"@.len());
    assert("Call"@.len() != "Concat"@.len());
    assert("Call"@.len() != "Len"@.len());
    assert("Call"@.len() != "Eq"@.len());
    assert("Call"@.len() != "Lt"@.len());
    assert("Call"@.len() != "Le"@.len());
    assert("Call"@.len() != "Index"@.len());
    assert("Call"@.len() != "NewIndex"@.len());
    assert(meta_name("Call"@) =~= "__"@ + ascii_lower("Call"@));
}

proof fn lemma_meta_tostring()
    ensures
        meta_name("ToString"@) == "__"@ + ascii_lower("ToString"@),
{
    reveal_strlit("Add");
    reveal_strlit("Sub");
    reveal_strlit("Mul");
    reveal_strlit("Div");
    reveal_strlit("Mod");
    reveal_strlit("Pow");
    reveal_strlit("Unm");
    reveal_strlit("IDiv");
    reveal_strlit("BAnd");
    reveal_strlit("BOr");
    reveal_strlit("BXor");
    reveal_strlit("BNot");
    reveal_strlit("Shl");
    reveal_strlit("Shr");
    reveal_strlit("Concat");
    reveal_strlit("Len");
    reveal_strlit("Eq");
    reveal_strlit("Lt");
    reveal_strlit("Le");
    reveal_strlit("Index");
    reveal_strlit("NewIndex");
    reveal_strlit("Call");
    reveal_strlit("ToString");
    reveal_strlit("__tostring");
    reveal_strlit("__");
    assert("ToString"@.len() != "Add"@.len());
    assert("ToString"@.len() != "Sub"@.len());
    assert("ToString"@.len() != "Mul"@.len());
    assert("ToString"@.len() != "Div"@.len());
    assert("ToString"@.len() != "Mod"@.len());
    assert("ToString"@.len() != "Pow"@.len());
    assert("ToString"@.len() != "Unm"@.len());
    assert("ToString"@.len() != "IDiv"@.len());
    assert("ToString"@.len() != "BAnd"@.len());
    assert("ToString"@.len() != "BOr"@.len());
    assert("ToString"@.len() != "BXor"@.len());
    assert("ToString"@.len() != "BNot"@.len());
    assert("ToString"@.len() != "Shl"@.len());
    assert("ToString"@.len() != "Shr"@.len());
    assert("ToString"@.len() != "Concat"@.len());
    assert("ToString"@.len() != "Len"@.len());
    assert("ToString"@.len() != "Eq"@.len());
    assert("ToString"@.len() != "Lt"@.len());
    assert("ToString"@.len() != "Le"@.len());
    assert("ToString"@.len() != "Index"@.len());
    assert("ToString"@[0] != "NewIndex"@[0]);
    assert("ToString"@.len() != "Call"@.len());
    assert(meta_name("ToString"@) =~= "__"@ + ascii_lower("ToString"@));
}

proof fn lemma_meta_pairs()
    ensures
        meta_name("Pairs"@) == "__"@ + ascii_lower("Pairs"@),
{
    reveal_strlit("Add");
    reveal_strlit("Sub");
    reveal_strlit("Mul");
    reveal_strlit("Div");
    reveal_strlit("Mod");
    reveal_strlit("Pow");
    reveal_strlit("Unm");
    reveal_strlit("IDiv");
    reveal_strlit("BAnd");
    reveal_strlit("BOr");
    reveal_strlit("BXor");
    reveal_strlit("BNot");
    reveal_strlit("Shl");
    reveal_strlit("Shr");
    reveal_strlit("Concat");
    reveal_strlit("Len");
    reveal_strlit("Eq");
    reveal_strlit("Lt");
    reveal_strlit("Le");
    reveal_strlit("Index");
    reveal_strlit("NewIndex");
    reveal_strlit("Call");
    reveal_strlit("ToString");
    reveal_strlit("Pairs");
    reveal_strlit("__pairs");
    reveal_strlit("__");
    assert("Pairs"@.len() != "Add"@.len());
    assert("Pairs"@.len() != "Sub"@.len());
    assert("Pairs"@.len() != "Mul"@.len());
    assert("Pairs"@.len() != "Div"@.len());
    assert("Pairs"@.len() != "Mod"@.len());
    assert("Pairs"@.len() != "Pow"@.len());
    assert("Pairs"@.len() != "Unm"@.len());
    assert("Pairs"@.len() != "IDiv"@.len());
    assert("Pairs"@.len() != "BAnd"@.len());
    assert("Pairs"@.len() != "BOr"@.len());
    assert("Pairs"@.len() != "BXor"@.len());
    assert("Pairs"@.len() != "BNot"@.len());
    assert("Pairs"@.len() != "Shl"@.len());
    assert("Pairs"@.len() != "Shr"@.len());
    assert("Pairs"@.len() != "Concat"@.len());
    assert("Pairs"@.len() != "Len"@.len());
    assert("Pairs"@.len() != "Eq"@.len());
    assert("Pairs"@.len() != "Lt"@.len());
    assert("Pairs"@.len() != "Le"@.len());
    assert("Pairs"@[0] != "Index"@[0]);
    assert("Pairs"@.len() != "NewIndex"@.len());
    assert("Pairs"@.len() != "Call"@.len());
    assert("Pairs"@.len() != "ToString"@.len());
    assert(meta_name("Pairs"@) =~= "__"@ + ascii_lower("Pairs"@));
}

proof fn lemma_meta_ipairs()
    ensures
        meta_name("IPairs"@) == "__"@ + ascii_lower("IPairs"@),
{
    reveal_strlit("Add");
    reveal_strlit("Sub");
    reveal_strlit("Mul");
    reveal_strlit("Div");
    reveal_strlit("Mod");
    reveal_strlit("Pow");
    reveal_strlit("Unm");
    reveal_strlit("IDiv");
    reveal_strlit("BAnd");
    reveal_strlit("BOr");
    reveal_strlit("BXor");
    reveal_strlit("BNot");
    reveal_strlit("Shl");
    reveal_strlit("Shr");
    reveal_strlit("Concat");
    reveal_strlit("Len");
    reveal_strlit("Eq");
    reveal_strlit("Lt");
    reveal_strlit("Le");
    reveal_strlit("Index");
    reveal_strlit("NewIndex");
    reveal_strlit("Call");
    reveal_strlit("ToString");
    reveal_strlit("Pairs");
    reveal_strlit("IPairs");
    reveal_strlit("__ipairs");
    reveal_strlit("__");
    assert("IPairs"@.len() != "Add"@.len());
    assert("IPairs"@.len() != "Sub"@.len());
    assert("IPairs"@.len() != "Mul"@.len());
    assert("IPairs"@.len() != "Div"@.len());
    assert("IPairs"@.len() != "Mod"@.len());
    assert("IPairs"@.len() != "Pow"@.len());
    assert("IPairs"@.len() != "Unm"@.len());
    assert("IPairs"@.len() != "IDiv"@.len());
    assert("IPairs"@.len() != "BAnd"@.len());
    assert("IPairs"@.len() != "BOr"@.len());
    assert("IPairs"@.len() != "BXor"@.len());
    assert("IPairs"@.len() != "BNot"@.len());
    assert("IPairs"@.len() != "Shl"@.len());
    assert("IPairs"@.len() != "Shr"@.len());
    assert("IPairs"@[0] != "Concat"@[0]);
    assert("IPairs"@.len() != "Len"@.len());
    assert("IPairs"@.len() != "Eq"@.len());
    assert("IPairs"@.len() != "Lt"@.len());
    assert("IPairs"@.len() != "Le"@.len());
    assert("IPairs"@.len() != "Index"@.len());
    assert("IPairs"@.len() != "NewIndex"@.len());
    assert("IPairs"@.len() != "Call"@.len());
    assert("IPairs"@.len() != "ToString"@.len());
    assert("IPairs"@.len() != "Pairs"@.len());
    assert(meta_name("IPairs"@) =~= "__"@ + ascii_lower("IPairs"@));
}

proof fn lemma_meta_gt()
    ensures
        meta_name("Gt"@) == "__"@ + ascii_lower("Gt"@),
{
    reveal_strlit("Add");
    reveal_strlit("Sub");
    reveal_strlit("Mul");
    reveal_strlit("Div");
    reveal_strlit("Mod");
    reveal_strlit("Pow");
    reveal_strlit("Unm");
    reveal_strlit("IDiv");
    reveal_strlit("BAnd");
    reveal_strlit("BOr");
    reveal_strlit("BXor");
    reveal_strlit("BNot");
    reveal_strlit("Shl");
    reveal_strlit("Shr");
    reveal_strlit("Concat");
    reveal_strlit("Len");
    reveal_strlit("Eq");
    reveal_strlit("Lt");
    reveal_strlit("Le");
    reveal_strlit("Index");
    reveal_strlit("NewIndex");
    reveal_strlit("Call");
    reveal_strlit("ToString");
    reveal_strlit("Pairs");
    reveal_strlit("IPairs");
    reveal_strlit("Gt");
    reveal_strlit("__gt");
    reveal_strlit("__");
    assert("Gt"@.len() != "Add"@.len());
    assert("Gt"@.len() != "Sub"@.len());
    assert("Gt"@.len() != "Mul"@.len());
    assert("Gt"@.len() != "Div"@.len());
    assert("Gt"@.len() != "Mod"@.len());
    assert("Gt"@.len() != "Pow"@.len());
    assert("Gt"@.len() != "Unm"@.len());
    assert("Gt"@.len() != "IDiv"@.len());
    assert("Gt"@.len() != "BAnd"@.len());
    assert("Gt"@.len() != "BOr"@.len());
    assert("Gt"@.len() != "BXor"@.len());
    assert("Gt"@.len() != "BNot"@.len());
    assert("Gt"@.len() != "Shl"@.len());
    assert("Gt"@.len() != "Shr"@.len());
    assert("Gt"@.len() != "Concat"@.len());
    assert("Gt"@.len() != "Len"@.len());
    assert("Gt"@[0] != "Eq"@[0]);
    assert("Gt"@[0] != "Lt"@[0]);
    assert("Gt"@[0] != "Le"@[0]);
    assert("Gt"@.len() != "Index"@.len());
    assert("Gt"@.len() != "NewIndex"@.len());
    assert("Gt"@.len() != "Call"@.len());
    assert("Gt"@.len() != "ToString"@.len());
    assert("Gt"@.len() != "Pairs"@.len());
    assert("Gt"@.len() != "IPairs"@.len());
    assert(meta_name("Gt"@) =~= "__"@ + ascii_lower("Gt"@));
}

proof fn lemma_meta_ge()
    ensures
        meta_name("Ge"@) == "__"@ + ascii_lower("Ge"@),
{
    reveal_strlit("Add");
    reveal_strlit("Sub");
    reveal_strlit("Mul");
    reveal_strlit("Div");
    reveal_strlit("Mod");
    reveal_strlit("Pow");
    reveal_strlit("Unm");
    reveal_strlit("IDiv");
    reveal_strlit("BAnd");
    reveal_strlit("BOr");
    reveal_strlit("BXor");
    reveal_strlit("BNot");
    reveal_strlit("Shl");
    reveal_strlit("Shr");
    reveal_strlit("Concat");
    reveal_strlit("Len");
    reveal_strlit("Eq");
    reveal_strlit("Lt");
    reveal_strlit("Le");
    reveal_strlit("Index");
    reveal_strlit("NewIndex");
    reveal_strlit("Call");
    reveal_strlit("ToString");
    reveal_strlit("Pairs");
    reveal_strlit("IPairs");
    reveal_strlit("Gt");
    reveal_strlit("Ge");
    reveal_strlit("__ge");
    reveal_strlit("__");
    assert("Ge"@.len() != "Add"@.len());
    assert("Ge"@.len() != "Sub"@.len());
    assert("Ge"@.len() != "Mul"@.len());
    assert("Ge"@.len() != "Div"@.len());
    assert("Ge"@.len() != "Mod"@.len());
    assert("Ge"@.len() != "Pow"@.len());
    assert("Ge"@.len() != "Unm"@.len());
    assert("Ge"@.len() != "IDiv"@.len());
    assert("Ge"@.len() != "BAnd"@.len());
    assert("Ge"@.len() != "BOr"@.len());
    assert("Ge"@.len() != "BXor"@.len());
    assert("Ge"@.len() != "BNot"@.len());
    assert("Ge"@.len() != "Shl"@.len());
    assert("Ge"@.len() != "Shr"@.len());
    assert("Ge"@.len() != "Concat"@.len());
    assert("Ge"@.len() != "Len"@.len());
    assert("Ge"@[0] != "Eq"@[0]);
    assert("Ge"@[0] != "Lt"@[0]);
    assert("Ge"@[0] != "Le"@[0]);
    assert("Ge"@.len() != "Index"@.len());
    assert("Ge"@.len() != "NewIndex"@.len());
    assert("Ge"@.len() != "Call"@.len());
    assert("Ge"@.len() != "ToString"@.len());
    assert("Ge"@.len() != "Pairs"@.len());
    assert("Ge"@.len() != "IPairs"@.len());
    assert("Ge"@[1] != "Gt"@[1]);
    assert(meta_name("Ge"@) =~= "__"@ + ascii_lower("Ge"@));
}

proof fn lemma_meta_iter()
    ensures
        meta_name("Iter"@) == "__"@ + ascii_lower("Iter"@),
{
    reveal_strlit("Add");
    reveal_strlit("Sub");
    reveal_strlit("Mul");
    reveal_strlit("Div");
    reveal_strlit("Mod");
    reveal_strlit("Pow");
    reveal_strlit("Unm");
    reveal_strlit("IDiv");
    reveal_strlit("BAnd");
    reveal_strlit("BOr");
    reveal_strlit("BXor");
    reveal_strlit("BNot");
    reveal_strlit("Shl");
    reveal_strlit("Shr");
    reveal_strlit("Concat");
    reveal_strlit("Len");
    reveal_strlit("Eq");
    reveal_strlit("Lt");
    reveal_strlit("Le");
    reveal_strlit("Index");
    reveal_strlit("NewIndex");
    reveal_strlit("Call");
    reveal_strlit("ToString");
    reveal_strlit("Pairs");
    reveal_strlit("IPairs");
    reveal_strlit("Gt");
    reveal_strlit("Ge");
    reveal_strlit("Iter");
    reveal_strlit("__iter");
    reveal_strlit("__");
    assert("Iter"@.len() != "Add"@.len());
    assert("Iter"@.len() != "Sub"@.len());
    assert("Iter"@.len() != "Mul"@.len());
    assert("Iter"@.len() != "Div"@.len());
    assert("Iter"@.len() != "Mod"@.len());
    assert("Iter"@.len() != "Pow"@.len());
    assert("Iter"@.len() != "Unm"@.len());
    assert("Iter"@[1] != "IDiv"@[1]);
    assert("Iter"@[0] != "BAnd"@[0]);
    assert("Iter"@.len() != "BOr"@.len());
    assert("Iter"@[0] != "BXor"@[0]);
    assert("Iter"@[0] != "BNot"@[0]);
    assert("Iter"@.len() != "Shl"@.len());
    assert("Iter"@.len() != "Shr"@.len());
    assert("Iter"@.len() != "Concat"@.len());
    assert("Iter"@.len() != "Len"@.len());
    assert("Iter"@.len() != "Eq"@.len());
    assert("Iter"@.len() != "Lt"@.len());
    assert("Iter"@.len() != "Le"@.len());
    assert("Iter"@.len() != "Index"@.len());
    assert("Iter"@.len() != "NewIndex"@.len());
    assert("Iter"@[0] != "Call"@[0]);
    assert("Iter"@.len() != "ToString"@.len());
    assert("Iter"@.len() != "Pairs"@.len());
    assert("Iter"@.len() != "IPairs"@.len());
    assert("Iter"@.len() != "Gt"@.len());
    assert("Iter"@.len() != "Ge"@.len());
    assert(meta_name("Iter"@) =~= "__"@ + ascii_lower("Iter"@));
}

proof fn lemma_meta_close()
    ensures
        meta_name("Close"@) == "__"@ + ascii_lower("Close"@),
{
    reveal_strlit("Add");
    reveal_strlit("Sub");
    reveal_strlit("Mul");
    reveal_strlit("Div");
    reveal_strlit("Mod");
    reveal_strlit("Pow");
    reveal_strlit("Unm");
    reveal_strlit("IDiv");
    reveal_strlit("BAnd");
    reveal_strlit("BOr");
    reveal_strlit("BXor");
    reveal_strlit("BNot");
    reveal_strlit("Shl");
    reveal_strlit("Shr");
    reveal_strlit("Concat");
    reveal_strlit("Len");
    reveal_strlit("Eq");
    reveal_strlit("Lt");
    reveal_strlit("Le");
    reveal_strlit("Index");
    reveal_strlit("NewIndex");
    reveal_strlit("Call");
    reveal_strlit("ToString");
    reveal_strlit("Pairs");
    reveal_strlit("IPairs");
    reveal_strlit("Gt");
    reveal_strlit("Ge");
    reveal_strlit("Iter");
    reveal_strlit("Close");
    reveal_strlit("__close");
    reveal_strlit("__");
    assert("Close"@.len() != "Add"@.len());
    assert("Close"@.len() != "Sub"@.len());
    assert("Close"@.len() != "Mul"@.len());
    assert("Close"@.len() != "Div"@.len());
    assert("Close"@.len() != "Mod"@.len());
    assert("Close"@.len() != "Pow"@.len());
    assert("Close"@.len() != "Unm"@.len());
    assert("Close"@.len() != "IDiv"@.len());
    assert("Close"@.len() != "BAnd"@.len());
    assert("Close"@.len() != "BOr"@.len());
    assert("Close"@.len() != "BXor"@.len());
    assert("Close"@.len() != "BNot"@.len());
    assert("Close"@.len() != "Shl"@.len());
    assert("Close"@.len() != "Shr"@.len());
    assert("Close"@.len() != "Concat"@.len());
    assert("Close"@.len() != "Len"@.len());
    assert("Close"@.len() != "Eq"@.len());
    assert("Close"@.len() != "Lt"@.len());
    assert("Close"@.len() != "Le"@.len());
    assert("Close"@[0] != "Index"@[0]);
    assert("Close"@.len() != "NewIndex"@.len());
    assert("Close"@.len() != "Call"@.len());
    assert("Close"@.len() != "ToString"@.len());
    assert("Close"@[0] != "Pairs"@[0]);
    assert("Close"@.len() != "IPairs"@.len());
    assert("Close"@.len() != "Gt"@.len());
    assert("Close"@.len() != "Ge"@.len());
    assert("Close"@.len() != "Iter"@.len());
    assert(meta_name("Close"@) =~= "__"@ + ascii_lower("Close"@));
}

/// Each `MetaMethod` variant is named in Lua by `__` and the variant's
/// name in lower case: `Lt` is `__lt`, `Le` is `__le`, `NewIndex` is
/// `__newindex`.
pub proof fn law_metamethod_names(v: Seq<char>)
    requires
        known_metamethod(v),
    ensures
        meta_name(v) == "__"@ + ascii_lower(v),
{
    if v == "Add"@ {
        lemma_meta_add();
    }
    if v == "Sub"@ {
        lemma_meta_sub();
    }
    if v == "Mul"@ {
        lemma_meta_mul();
    }
    if v == "Div"@ {
        lemma_meta_div();
    }
    if v == "Mod"@ {
        lemma_meta_mod();
    }
    if v == "Pow"@ {
        lemma_meta_pow();
    }
    if v == "Unm"@ {
        lemma_meta_unm();
    }
    if v == "IDiv"@ {
        lemma_meta_idiv();
    }
    if v == "BAnd"@ {
        lemma_meta_band();
    }
    if v == "BOr"@ {
        lemma_meta_bor();
    }
    if v == "BXor"@ {
        lemma_meta_bxor();
    }
    if v == "BNot"@ {
        lemma_meta_bnot();
    }
    if v == "Shl"@ {
        lemma_meta_shl();
    }
    if v == "Shr"@ {
        lemma_meta_shr();
    }
    if v == "Concat"@ {
        lemma_meta_concat();
    }
    if v == "Len"@ {
        lemma_meta_len();
    }
    if v == "Eq"@ {
        lemma_meta_eq();
    }
    if v == "Lt"@ {
        lemma_meta_lt();
    }
    if v == "Le"@ {
        lemma_meta_le();
    }
    if v == "Index"@ {
        lemma_meta_index();
    }
    if v == "NewIndex"@ {
        lemma_meta_newindex();
    }
    if v == "Call"@ {
        lemma_meta_call();
    }
    if v == "ToString"@ {
        lemma_meta_tostring();
    }
    if v == "Pairs"@ {
        lemma_meta_pairs();
    }
    if v == "IPairs"@ {
        lemma_meta_ipairs();
    }
    if v == "Gt"@ {
        lemma_meta_gt();
    }
    if v == "Ge"@ {
        lemma_meta_ge();
    }
    if v == "Iter"@ {
        lemma_meta_iter();
    }
    if v == "Close"@ {
        lemma_meta_close();
    }
}

/// The variants of mlua's `Value` whose constructor fixes a Lua type.
pub open spec fn typed_value_variant(v: Seq<char>) -> bool {
    v == "Nil"@ || v == "Boolean"@ || v == "Integer"@ || v == "Number"@ || v == "String"@ || v == "LightUserData"@ || v == "Table"@ || v == "Function"@ || v == "Thread"@
}

proof fn lemma_value_nil()
    ensures
        value_variant_ty("Nil"@) matches Some(t) && ty_text(t) == ascii_lower("Nil"@),
{
    reveal_strlit("Nil");
    reveal(ty_text);
    reveal_strlit("nil");
    assert(ty_text(value_variant_ty("Nil"@)->0) =~= ascii_lower("Nil"@));
}

proof fn lemma_value_boolean()
    ensures
        value_variant_ty("Boolean"@) matches Some(t) && ty_text(t) == ascii_lower("Boolean"@),
{
    reveal_strlit("Boolean");
    reveal_strlit("Nil");
    assert("Boolean"@.len() != "Nil"@.len());
    reveal(ty_text);
    reveal_strlit("boolean");
    assert(ty_text(value_variant_ty("Boolean"@)->0) =~= ascii_lower("Boolean"@));
}

proof fn lemma_value_integer()
    ensures
        value_variant_ty("Integer"@) matches Some(t) && ty_text(t) == ascii_lower("Integer"@),
{
    reveal_strlit("Integer");
    reveal_strlit("Nil");
    assert("Integer"@.len() != "Nil"@.len());
    reveal_strlit("Boolean");
    assert("Integer"@[0] != "Boolean"@[0]);
    reveal(ty_text);
    reveal_strlit("integer");
    assert(ty_text(value_variant_ty("Integer"@)->0) =~= ascii_lower("Integer"@));
}

proof fn lemma_value_number()
    ensures
        value_variant_ty("Number"@) matches Some(t) && ty_text(t) == ascii_lower("Number"@),
{
    reveal_strlit("Number");
    reveal_strlit("Nil");
    assert("Number"@.len() != "Nil"@.len());
    reveal_strlit("Boolean");
    assert("Number"@.len() != "Boolean"@.len());
    reveal_strlit("Integer");
    assert("Number"@.len() != "Integer"@.len());
    reveal(ty_text);
    reveal_strlit("number");
    assert(ty_text(value_variant_ty("Number"@)->0) =~= ascii_lower("Number"@));
}

proof fn lemma_value_string()
    ensures
        value_variant_ty("String"@) matches Some(t) && ty_text(t) == ascii_lower("String"@),
{
    reveal_strlit("String");
    reveal_strlit("Nil");
    assert("String"@.len() != "Nil"@.len());
    reveal_strlit("Boolean");
    assert("String"@.len() != "Boolean"@.len());
    reveal_strlit("Integer");
    assert("String"@.len() != "Integer"@.len());
    reveal_strlit("Number");
    assert("String"@[0] != "Number"@[0]);
    reveal(ty_text);
    reveal_strlit("string");
    assert(ty_text(value_variant_ty("String"@)->0) =~= ascii_lower("String"@));
}

proof fn lemma_value_lightuserdata()
    ensures
        value_variant_ty("LightUserData"@) == Some(LuaTy::Any),
{
    reveal_strlit("LightUserData");
    reveal_strlit("Nil");
    assert("LightUserData"@.len() != "Nil"@.len());
    reveal_strlit("Boolean");
    assert("LightUserData"@.len() != "Boolean"@.len());
    reveal_strlit("Integer");
    assert("LightUserData"@.len() != "Integer"@.len());
    reveal_strlit("Number");
    assert("LightUserData"@.len() != "Number"@.len());
    reveal_strlit("String");
    assert("LightUserData"@.len() != "String"@.len());
}

proof fn lemma_value_table()
    ensures
        value_variant_ty("Table"@) matches Some(t) && ty_text(t) == ascii_lower("Table"@),
{
    reveal_strlit("Table");
    reveal_strlit("Nil");
    assert("Table"@.len() != "Nil"@.len());
    reveal_strlit("Boolean");
    assert("Table"@.len() != "Boolean"@.len());
    reveal_strlit("Integer");
    assert("Table"@.len() != "Integer"@.len());
    reveal_strlit("Number");
    assert("Table"@.len() != "Number"@.len());
    reveal_strlit("String");
    assert("Table"@.len() != "String"@.len());
    reveal_strlit("LightUserData");
    assert("Table"@.len() != "LightUserData"@.len());
    reveal(ty_text);
    reveal_strlit("table");
    assert(ty_text(value_variant_ty("Table"@)->0) =~= ascii_lower("Table"@));
}

proof fn lemma_value_function()
    ensures
        value_variant_ty("Function"@) matches Some(t) && ty_text(t) == ascii_lower("Function"@),
{
    reveal_strlit("Function");
    reveal_strlit("Nil");
    assert("Function"@.len() != "Nil"@.len());
    reveal_strlit("Boolean");
    assert("Function"@.len() != "Boolean"@.len());
    reveal_strlit("Integer");
    assert("Function"@.len() != "Integer"@.len());
    reveal_strlit("Number");
    assert("Function"@.len() != "Number"@.len());
    reveal_strlit("String");
    assert("Function"@.len() != "String"@.len());
    reveal_strlit("LightUserData");
    assert("Function"@.len() != "LightUserData"@.len());
    reveal_strlit("Table");
    assert("Function"@.len() != "Table"@.len());
    reveal(ty_text);
    reveal_strlit("function");
    assert(ty_text(value_variant_ty("Function"@)->0) =~= ascii_lower("Function"@));
}

proof fn lemma_value_thread()
    ensures
        value_variant_ty("Thread"@) matches Some(t) && ty_text(t) == ascii_lower("Thread"@),
{
    reveal_strlit("Thread");
    reveal_strlit("Nil");
    assert("Thread"@.len() != "Nil"@.len());
    reveal_strlit("Boolean");
    assert("Thread"@.len() != "Boolean"@.len());
    reveal_strlit("Integer");
    assert("Thread"@.len() != "Integer"@.len());
    reveal_strlit("Number");
    assert("Thread"@[0] != "Number"@[0]);
    reveal_strlit("String");
    assert("Thread"@[0] != "String"@[0]);
    reveal_strlit("LightUserData");
    assert("Thread"@.len() != "LightUserData"@.len());
    reveal_strlit("Table");
    assert("Thread"@.len() != "Table"@.len());
    reveal_strlit("Function");
    assert("Thread"@.len() != "Function"@.len());
    reveal(ty_text);
    reveal_strlit("thread");
    assert(ty_text(value_variant_ty("Thread"@)->0) =~= ascii_lower("Thread"@));
}

/// A `Value` constructor gives a type exactly for the variants that fix
/// one, and that type is the one the variant names: its annotation text is
/// the variant's name in lower case (`Number` gives `number`, `Integer`
/// gives `integer`), light user data aside, which is `any`.
pub proof fn law_value_variant_types(v: Seq<char>)
    ensures
        value_variant_ty(v) is Some <==> typed_value_variant(v),
        v == "LightUserData"@ ==> value_variant_ty(v) == Some(LuaTy::Any),
        typed_value_variant(v) && v != "LightUserData"@ ==> (value_variant_ty(v) matches Some(t)
            && ty_text(t) == ascii_lower(v)),
{
    if v == "Nil"@ {
        lemma_value_nil();
    }
    if v == "Boolean"@ {
        lemma_value_boolean();
    }
    if v == "Integer"@ {
        lemma_value_integer();
    }
    if v == "Number"@ {
        lemma_value_number();
    }
    if v == "String"@ {
        lemma_value_string();
    }
    if v == "LightUserData"@ {
        lemma_value_lightuserdata();
    }
    if v == "Table"@ {
        lemma_value_table();
    }
    if v == "Function"@ {
        lemma_value_function();
    }
    if v == "Thread"@ {
        lemma_value_thread();
    }
}

/// A return value is annotated by a line of `---@return `, the type's
/// annotation text and, for a named return, a space and the name: a number
/// named `x` gives `---@return number x`. Error returns get no line.
pub proof fn law_return_lines(r: LuaReturn)
    ensures
        is_error_type(r.ty@) ==> return_ann_text(r).len() == 0,
        !is_error_type(r.ty@) ==> starts_with(return_ann_text(r), "---@return "@ + ty_text(r.ty@)),
        !is_error_type(r.ty@) && r.name is Some ==> return_ann_text(r) == "---@return "@ + ty_text(r.ty@)
            + " "@ + r.name->0@ + "\n"@,
        !is_error_type(r.ty@) && r.name is None ==> return_ann_text(r) == "---@return "@ + ty_text(r.ty@)
            + "\n"@,
{
    if !is_error_type(r.ty@) {
        let h = "---@return "@ + ty_text(r.ty@);
        assert(return_ann_text(r).subrange(0, h.len() as int) =~= h);
    }
}


// ── duplicates ────────────────────────────────────────────────────────

/// Two parameter lists with the same names and types, in order.
pub open spec fn same_param_list(a: Seq<LuaParam>, b: Seq<LuaParam>) -> bool {
    &&& a.len() == b.len()
    &&& forall|i: int| #![trigger a[i]] 0 <= i < a.len() ==> a[i].name@ == b[i].name@ && a[i].ty@ == b[i].ty@
}

/// Two return lists with the same types and names, in order.
pub open spec fn same_return_list(a: Seq<LuaReturn>, b: Seq<LuaReturn>) -> bool {
    &&& a.len() == b.len()
    &&& forall|i: int|
        #![trigger a[i]]
        0 <= i < a.len() ==> a[i].ty@ == b[i].ty@ && name_view(a[i].name) == name_view(b[i].name)
}

/// Two methods that differ at most in their docs.
pub open spec fn duplicate_method(a: LuaMethod, b: LuaMethod) -> bool {
    &&& a.name@ == b.name@
    &&& a.kind == b.kind
    &&& a.is_async == b.is_async
    &&& same_param_list(a.params@, b.params@)
    &&& same_return_list(a.returns@, b.returns@)
}

/// Two functions that differ at most in their docs.
pub open spec fn duplicate_function(a: LuaFunction, b: LuaFunction) -> bool {
    &&& a.name@ == b.name@
    &&& a.is_async == b.is_async
    &&& same_param_list(a.params@, b.params@)
    &&& same_return_list(a.returns@, b.returns@)
}

proof fn lemma_param_keys(a: Seq<LuaParam>, b: Seq<LuaParam>)
    ensures
        (crate::assemble::param_keys(a) == crate::assemble::param_keys(b)) <==> same_param_list(a, b),
{
    let ka = crate::assemble::param_keys(a);
    let kb = crate::assemble::param_keys(b);
    if ka == kb {
        assert(a.len() == ka.len() && b.len() == kb.len());
        assert forall|i: int| #![trigger a[i]] 0 <= i < a.len() implies a[i].name@ == b[i].name@ && a[i].ty@
            == b[i].ty@ by {
            assert(ka.len() == a.len() && kb.len() == b.len());
            assert(ka[i] == (a[i].name@, a[i].ty@));
            assert(kb[i] == (b[i].name@, b[i].ty@));
            assert(ka[i] == kb[i]);
        }
    }
    if same_param_list(a, b) {
        assert forall|i: int| 0 <= i < ka.len() implies ka[i] == kb[i] by {
            assert(a[i].ty@ == b[i].ty@);
            assert(ka[i] == (a[i].name@, a[i].ty@));
            assert(kb[i] == (b[i].name@, b[i].ty@));
        }
        assert(ka =~= kb);
    }
}

proof fn lemma_return_keys(a: Seq<LuaReturn>, b: Seq<LuaReturn>)
    ensures
        (crate::assemble::return_keys(a) == crate::assemble::return_keys(b)) <==> same_return_list(a, b),
{
    let ka = crate::assemble::return_keys(a);
    let kb = crate::assemble::return_keys(b);
    if ka == kb {
        assert(a.len() == ka.len() && b.len() == kb.len());
        assert forall|i: int| #![trigger a[i]] 0 <= i < a.len() implies a[i].ty@ == b[i].ty@ && name_view(
            a[i].name,
        ) == name_view(b[i].name) by {
            assert(ka.len() == a.len() && kb.len() == b.len());
            assert(ka[i] == (a[i].ty@, name_view(a[i].name)));
            assert(kb[i] == (b[i].ty@, name_view(b[i].name)));
            assert(ka[i] == kb[i]);
        }
    }
    if same_return_list(a, b) {
        assert forall|i: int| 0 <= i < ka.len() implies ka[i] == kb[i] by {
            assert(a[i].ty@ == b[i].ty@);
            assert(ka[i] == (a[i].ty@, name_view(a[i].name)));
            assert(kb[i] == (b[i].ty@, name_view(b[i].name)));
        }
        assert(ka =~= kb);
    }
}

proof fn lemma_kept_contains<T, K>(s: Seq<T>, key: spec_fn(T) -> K, j: int)
    requires
        0 <= j < s.len(),
        !key_seen(s.take(j), key, key(s[j])),
    ensures
        kept_firsts(s, key).contains(s[j]),
    decreases s.len(),
{
    let d = kept_firsts(s.drop_last(), key);
    if j == s.len() - 1 {
        assert(s.take(j) =~= s.drop_last());
        assert(d.push(s.last())[d.len() as int] == s[j]);
    } else {
        assert(s.drop_last().take(j) =~= s.take(j));
        assert(s.drop_last()[j] == s[j]);
        lemma_kept_contains(s.drop_last(), key, j);
        if !key_seen(s.drop_last(), key, key(s.last())) {
            let k = choose|k: int| 0 <= k < d.len() && d[k] == s[j];
            assert(d.push(s.last())[k] == s[j]);
        }
    }
}

proof fn lemma_kept_from<T, K>(s: Seq<T>, key: spec_fn(T) -> K)
    ensures
        forall|k: int| 0 <= k < kept_firsts(s, key).len() ==> s.contains(#[trigger] kept_firsts(s, key)[k]),
    decreases s.len(),
{
    if s.len() > 0 {
        lemma_kept_from(s.drop_last(), key);
        let d = kept_firsts(s.drop_last(), key);
        assert forall|k: int| 0 <= k < kept_firsts(s, key).len() implies s.contains(
            #[trigger] kept_firsts(s, key)[k],
        ) by {
            if k < d.len() {
                assert(kept_firsts(s, key)[k] == d[k]);
                let m = choose|m: int| 0 <= m < s.drop_last().len() && s.drop_last()[m] == d[k];
                assert(s[m] == d[k]);
            } else {
                assert(kept_firsts(s, key)[k] == s[s.len() - 1]);
            }
        }
    }
}

/// Removing duplicate methods keeps every method that no earlier method
/// duplicates (same name, kind, async flag, parameters and returns; docs
/// aside), leaves no two duplicates, and adds nothing: two overloads with
/// different parameters both stay.
pub proof fn law_dedupe_methods(ms: Seq<LuaMethod>)
    ensures
        forall|j: int|
            0 <= j < ms.len() && (forall|i: int| 0 <= i < j ==> !duplicate_method(#[trigger] ms[i], ms[j]))
                ==> kept_firsts(ms, method_key()).contains(#[trigger] ms[j]),
        forall|i: int, j: int|
            0 <= i < j < kept_firsts(ms, method_key()).len() ==> !duplicate_method(
                #[trigger] kept_firsts(ms, method_key())[i],
                #[trigger] kept_firsts(ms, method_key())[j],
            ),
        forall|k: int|
            0 <= k < kept_firsts(ms, method_key()).len() ==> ms.contains(
                #[trigger] kept_firsts(ms, method_key())[k],
            ),
{
    let key = method_key();
    let r = kept_firsts(ms, key);
    assert forall|a: LuaMethod, b: LuaMethod| #![trigger duplicate_method(a, b)] key(a) == key(b) <==> duplicate_method(a, b) by {
        lemma_param_keys(a.params@, b.params@);
        lemma_return_keys(a.returns@, b.returns@);
    }
    assert forall|j: int|
        0 <= j < ms.len() && (forall|i: int| 0 <= i < j ==> !duplicate_method(#[trigger] ms[i], ms[j]))
            implies r.contains(#[trigger] ms[j]) by {
        if key_seen(ms.take(j), key, key(ms[j])) {
            let i = choose|i: int| 0 <= i < ms.take(j).len() && key(#[trigger] ms.take(j)[i]) == key(ms[j]);
            assert(ms.take(j)[i] == ms[i]);
            assert(duplicate_method(ms[i], ms[j]));
        }
        lemma_kept_contains(ms, key, j);
    }
    law_kept_firsts(ms, key);
    lemma_kept_from(ms, key);
}

/// Removing duplicate functions keeps every function that no earlier one
/// duplicates (same name, async flag, parameters and returns; docs aside),
/// leaves no two duplicates, and adds nothing.
pub proof fn law_dedupe_functions(fs: Seq<LuaFunction>)
    ensures
        forall|j: int|
            0 <= j < fs.len() && (forall|i: int| 0 <= i < j ==> !duplicate_function(#[trigger] fs[i], fs[j]))
                ==> kept_firsts(fs, function_key()).contains(#[trigger] fs[j]),
        forall|i: int, j: int|
            0 <= i < j < kept_firsts(fs, function_key()).len() ==> !duplicate_function(
                #[trigger] kept_firsts(fs, function_key())[i],
                #[trigger] kept_firsts(fs, function_key())[j],
            ),
        forall|k: int|
            0 <= k < kept_firsts(fs, function_key()).len() ==> fs.contains(
                #[trigger] kept_firsts(fs, function_key())[k],
            ),
{
    let key = function_key();
    let r = kept_firsts(fs, key);
    assert forall|a: LuaFunction, b: LuaFunction| #![trigger duplicate_function(a, b)] key(a) == key(b) <==> duplicate_function(a, b) by {
        lemma_param_keys(a.params@, b.params@);
        lemma_return_keys(a.returns@, b.returns@);
    }
    assert forall|j: int|
        0 <= j < fs.len() && (forall|i: int| 0 <= i < j ==> !duplicate_function(#[trigger] fs[i], fs[j]))
            implies r.contains(#[trigger] fs[j]) by {
        if key_seen(fs.take(j), key, key(fs[j])) {
            let i = choose|i: int| 0 <= i < fs.take(j).len() && key(#[trigger] fs.take(j)[i]) == key(fs[j]);
            assert(fs.take(j)[i] == fs[i]);
            assert(duplicate_function(fs[i], fs[j]));
        }
        lemma_kept_contains(fs, key, j);
    }
    law_kept_firsts(fs, key);
    lemma_kept_from(fs, key);
}

// ── the launcher's command line ───────────────────────────────────────

proof fn lemma_parse_shift(
    pre: Seq<Seq<char>>,
    rest: Seq<Seq<char>>,
    i: int,
    o: Seq<char>,
    e: bool,
    c: Seq<Seq<char>>,
)
    requires
        0 <= i <= rest.len(),
    ensures
        parsed_from(pre + rest, pre.len() + i, o, e, c) == parsed_from(rest, i, o, e, c),
    decreases rest.len() - i,
{
    let s = pre + rest;
    if i < rest.len() {
        assert(s[pre.len() + i] == rest[i]);
        if i + 1 < rest.len() {
            assert(s[pre.len() + i + 1] == rest[i + 1]);
        }
        if rest[i] == "--output"@ || rest[i] == "-o"@ {
            if i + 1 < rest.len() {
                lemma_parse_shift(pre, rest, i + 2, rest[i + 1], e, c);
            }
        } else if rest[i] == "--emmylua"@ {
            lemma_parse_shift(pre, rest, i + 1, o, true, c);
        } else {
            lemma_parse_shift(pre, rest, i + 1, o, e, c.push(rest[i]));
        }
    }
}

/// Where the parse starts with another directory, it succeeds or fails
/// alike, with the same switch and cargo arguments, and either the same
/// directory or the ones it started with.
proof fn lemma_parse_dir_free(
    args: Seq<Seq<char>>,
    i: int,
    o1: Seq<char>,
    o2: Seq<char>,
    e: bool,
    c: Seq<Seq<char>>,
)
    requires
        0 <= i,
    ensures
        parsed_from(args, i, o1, e, c) is Some <==> parsed_from(args, i, o2, e, c) is Some,
        parsed_from(args, i, o1, e, c) matches Some(p1) ==> (parsed_from(args, i, o2, e, c) matches Some(
            p2,
        ) && p1.1 == p2.1 && p1.2 == p2.2 && (p1.0 == p2.0 || (p1.0 == o1 && p2.0 == o2))),
    decreases args.len() - i,
{
    if i < args.len() {
        if args[i] == "--output"@ || args[i] == "-o"@ {
        } else if args[i] == "--emmylua"@ {
            lemma_parse_dir_free(args, i + 1, o1, o2, true, c);
        } else {
            lemma_parse_dir_free(args, i + 1, o1, o2, e, c.push(args[i]));
        }
    }
}

/// `--output DIR` and `-o DIR` read alike, and the directory after them
/// never goes to cargo: put in front of any arguments, they leave the
/// switch and the cargo arguments as the rest gives them, and the
/// directory is theirs unless the rest names one. Alone, `--output DIR`
/// reads as that directory, no switch and no cargo arguments.
pub proof fn law_output_option(d: Seq<char>, rest: Seq<Seq<char>>)
    ensures
        launcher_parse(seq!["--output"@, d] + rest) == launcher_parse(seq!["-o"@, d] + rest),
        launcher_parse(seq!["--output"@, d] + rest) is Some <==> launcher_parse(rest) is Some,
        launcher_parse(rest) matches Some(r) ==> (launcher_parse(seq!["--output"@, d] + rest) matches Some(p)
            && p.1 == r.1 && p.2 == r.2 && (p.0 == r.0 || p.0 == d)),
        launcher_parse(seq!["--output"@, d]) == Some((d, false, Seq::<Seq<char>>::empty())),
{
    let a = seq!["--output"@, d];
    let b = seq!["-o"@, d];
    let e = Seq::<Seq<char>>::empty();
    assert((a + rest)[0] == "--output"@ && (a + rest)[1] == d);
    assert((b + rest)[0] == "-o"@ && (b + rest)[1] == d);
    lemma_parse_shift(a, rest, 0, d, false, e);
    lemma_parse_shift(b, rest, 0, d, false, e);
    lemma_parse_dir_free(rest, 0, d, "lua-types"@, false, e);
    assert(a =~= a + Seq::<Seq<char>>::empty());
    lemma_parse_shift(a, Seq::<Seq<char>>::empty(), 0, d, false, e);
}

/// A parameter is annotated by `---@param `, its name (`...` for a
/// variadic one, whose element type is written), a space, its type's
/// annotation text and a newline; a `nil` parameter gets no line.
pub proof fn law_param_lines(p: LuaParam)
    ensures
        p.ty@ is Nil ==> param_ann_text(p).len() == 0,
        p.ty@ matches LuaTy::Variadic(inner) ==> param_ann_text(p) == "---@param ... "@ + ty_text(*inner)
            + "\n"@,
        !(p.ty@ is Nil) && !(p.ty@ is Variadic) ==> param_ann_text(p) == "---@param "@ + p.name@ + " "@
            + ty_text(p.ty@) + "\n"@,
{
}

/// Removing duplicate fields keeps every field whose name no earlier
/// field has, leaves no two fields of one name, and adds nothing.
pub proof fn law_dedupe_fields(fs: Seq<LuaField>)
    ensures
        forall|j: int|
            0 <= j < fs.len() && (forall|i: int| 0 <= i < j ==> (#[trigger] fs[i]).name@ != fs[j].name@)
                ==> kept_firsts(fs, field_key()).contains(#[trigger] fs[j]),
        forall|i: int, j: int|
            0 <= i < j < kept_firsts(fs, field_key()).len() ==> (#[trigger] kept_firsts(fs, field_key())[i]).name@
                != (#[trigger] kept_firsts(fs, field_key())[j]).name@,
        forall|k: int|
            0 <= k < kept_firsts(fs, field_key()).len() ==> fs.contains(
                #[trigger] kept_firsts(fs, field_key())[k],
            ),
{
    let key = field_key();
    assert forall|j: int|
        0 <= j < fs.len() && (forall|i: int| 0 <= i < j ==> (#[trigger] fs[i]).name@ != fs[j].name@)
            implies kept_firsts(fs, key).contains(#[trigger] fs[j]) by {
        if key_seen(fs.take(j), key, key(fs[j])) {
            let i = choose|i: int| 0 <= i < fs.take(j).len() && key(#[trigger] fs.take(j)[i]) == key(fs[j]);
            assert(fs.take(j)[i] == fs[i]);
        }
        lemma_kept_contains(fs, key, j);
    }
    law_kept_firsts(fs, key);
    let r = kept_firsts(fs, key);
    assert forall|i: int, j: int| 0 <= i < j < r.len() implies (#[trigger] r[i]).name@ != (#[trigger] r[j]).name@ by {
        assert(key(r[i]) != key(r[j]));
    }
    lemma_kept_from(fs, key);
}

/// `--emmylua` anywhere in front of the arguments turns the switch on and
/// changes nothing else: the directory and the cargo arguments are those
/// of the rest.
pub proof fn law_emmylua_switch(rest: Seq<Seq<char>>)
    ensures
        launcher_parse(seq!["--emmylua"@] + rest) is Some <==> launcher_parse(rest) is Some,
        launcher_parse(rest) matches Some(r) ==> launcher_parse(seq!["--emmylua"@] + rest) == Some(
            (r.0, true, r.2),
        ),
{
    let a = seq!["--emmylua"@];
    let e = Seq::<Seq<char>>::empty();
    reveal_strlit("--emmylua");
    reveal_strlit("--output");
    reveal_strlit("-o");
    assert((a + rest)[0] == "--emmylua"@);
    assert("--emmylua"@.len() != "--output"@.len());
    assert("--emmylua"@.len() != "-o"@.len());
    lemma_parse_shift(a, rest, 0, "lua-types"@, true, e);
    lemma_parse_switch(rest, 0, "lua-types"@, false, e);
}

proof fn lemma_parse_switch(args: Seq<Seq<char>>, i: int, o: Seq<char>, e: bool, c: Seq<Seq<char>>)
    requires
        0 <= i,
    ensures
        parsed_from(args, i, o, true, c) is Some <==> parsed_from(args, i, o, e, c) is Some,
        parsed_from(args, i, o, e, c) matches Some(p) ==> parsed_from(args, i, o, true, c) == Some(
            (p.0, true, p.2),
        ),
        parsed_from(args, i, o, true, c) matches Some(q) ==> q.1,
    decreases args.len() - i,
{
    if i < args.len() {
        if args[i] == "--output"@ || args[i] == "-o"@ {
            if i + 1 < args.len() {
                lemma_parse_switch(args, i + 2, args[i + 1], e, c);
            }
        } else if args[i] == "--emmylua"@ {
            lemma_parse_switch(args, i + 1, o, true, c);
        } else {
            lemma_parse_switch(args, i + 1, o, e, c.push(args[i]));
        }
    }
}

// ── API normalization ─────────────────────────────────────────────────

/// A normalized API type is never a class named by union annotation text:
/// such text is always read back into the union it denotes.
pub proof fn law_normalized_reads_union_text(t: LuaTy, known: Seq<Seq<char>>)
    ensures
        api_normalized(t, known) matches LuaTy::Class(n) ==> flat_union_text(n) is None,
    decreases crate::display::cmax(t),
{
    let t1 = api_first_step(t, known);
    let t2 = unions_merged(t1);
    if let LuaTy::Class(name) = t2 {
        if let Some(p) = flat_union_text(name) {
            lemma_first_step_cmax(t, known);
            lemma_merged_cmax(t1);
            lemma_flat_union_bound(name);
            law_normalized_reads_union_text(p, known);
        }
    }
}

// ── duplicates and order ──────────────────────────────────────────────

/// Keeping the first item of each key leaves no key twice and loses none.
pub proof fn law_kept_firsts<T, K>(s: Seq<T>, key: spec_fn(T) -> K)
    ensures
        forall|i: int, j: int|
            0 <= i < j < kept_firsts(s, key).len() ==> key(kept_firsts(s, key)[i]) != key(
                kept_firsts(s, key)[j],
            ),
        forall|k: K| #[trigger] key_seen(kept_firsts(s, key), key, k) == key_seen(s, key, k),
    decreases s.len(),
{
    assert forall|k: K| #[trigger] key_seen(kept_firsts(s, key), key, k) == key_seen(s, key, k) by {
        lemma_kept_keys(s, key, k);
    }
    if s.len() > 0 {
        law_kept_firsts(s.drop_last(), key);
        let d = kept_firsts(s.drop_last(), key);
        if !key_seen(s.drop_last(), key, key(s.last())) {
            lemma_kept_keys(s.drop_last(), key, key(s.last()));
            let e = d.push(s.last());
            assert forall|i: int, j: int| 0 <= i < j < e.len() implies key(e[i]) != key(e[j]) by {
                assert(e[i] == d[i]);
                if j < d.len() {
                    assert(e[j] == d[j]);
                } else {
                    assert(e[j] == s.last());
                    assert(!key_seen(d, key, key(s.last())));
                    if key(d[i]) == key(s.last()) {
                        assert(key(#[trigger] d[i]) == key(s.last()));
                    }
                }
            }
        }
    }
}

/// Sorting by name while keeping the first of each name gives one item for
/// each name of the input, in strictly increasing name order.
pub proof fn law_sorted_unique_names<T: Named>(s: Seq<T>, r: Seq<T>)
    requires
        sorted_unique(s, r),
    ensures
        forall|nm: Seq<char>| #[trigger] key_seen(r, name_key::<T>(), nm) == key_seen(
            s,
            name_key::<T>(),
            nm,
        ),
        forall|i: int, j: int| 0 <= i < j < r.len() ==> r[i].name_of() != r[j].name_of(),
{
    let kept = kept_firsts(s, name_key::<T>());
    assert forall|nm: Seq<char>| #[trigger] key_seen(r, name_key::<T>(), nm) == key_seen(
        s,
        name_key::<T>(),
        nm,
    ) by {
        lemma_kept_keys(s, name_key::<T>(), nm);
        if key_seen(r, name_key::<T>(), nm) {
            let j = choose|j: int| 0 <= j < r.len() && (name_key::<T>())(#[trigger] r[j]) == nm;
            assert(r.contains(r[j]));
            assert(kept.contains(r[j]));
            let i = choose|i: int| 0 <= i < kept.len() && kept[i] == r[j];
            assert((name_key::<T>())(kept[i]) == nm);
        }
        if key_seen(kept, name_key::<T>(), nm) {
            let i = choose|i: int| 0 <= i < kept.len() && (name_key::<T>())(#[trigger] kept[i]) == nm;
            assert(kept.contains(kept[i]));
            assert(r.contains(kept[i]));
            let j = choose|j: int| 0 <= j < r.len() && r[j] == kept[i];
            assert((name_key::<T>())(r[j]) == nm);
        }
    }
    assert forall|i: int, j: int| 0 <= i < j < r.len() implies r[i].name_of() != r[j].name_of() by {
        assert(text_lt(r[i].name_of(), r[j].name_of()));
        lemma_text_lt_irreflexive(r[i].name_of());
    }
}

/// Names are ordered strictly and totally.
pub proof fn law_name_order(a: Seq<char>, b: Seq<char>, c: Seq<char>)
    ensures
        !text_lt(a, a),
        text_lt(a, b) ==> !text_lt(b, a),
        a != b ==> text_lt(a, b) || text_lt(b, a),
        text_lt(a, b) && text_lt(b, c) ==> text_lt(a, c),
{
    lemma_text_lt_irreflexive(a);
    lemma_text_lt_asymmetric(a, b);
    lemma_text_lt_total(a, b);
    if text_lt(a, b) && text_lt(b, c) {
        lemma_text_lt_transitive(a, b, c);
    }
}

/// Names of modules stay unique when a module is merged in, and the
/// merged module's name is then present.
pub proof fn law_upsert_keeps_names_unique(ms: Seq<ModuleView>, m: ModuleView)
    requires
        forall|i: int, j: int| 0 <= i < j < ms.len() ==> ms[i].name != ms[j].name,
    ensures
        forall|i: int, j: int|
            0 <= i < j < module_upserted(ms, m).len() ==> module_upserted(ms, m)[i].name
                != module_upserted(ms, m)[j].name,
        exists|k: int| 0 <= k < module_upserted(ms, m).len() && #[trigger] module_upserted(ms, m)[k].name == m.name,
        module_upserted(ms, m).len() <= ms.len() + 1,
{
    lemma_module_index(ms, m.name, 0);
    let r = module_upserted(ms, m);
    match module_index(ms, m.name, 0) {
        Some(k) => {
            assert(r[k].name == m.name);
        },
        None => {
            assert(r[ms.len() as int].name == m.name);
            assert forall|i: int, j: int| 0 <= i < j < r.len() implies r[i].name != r[j].name by {
                if j == ms.len() {
                    assert(r[i] == ms[i]);
                }
            }
        },
    }
}

// ── the driver's command line ─────────────────────────────────────────

/// Once a `--key=value` flag is extracted, no argument left starts with
/// it, and extracting it again finds nothing and changes nothing.
pub proof fn law_extracted_flag_gone(args: Seq<Seq<char>>, prefix: Seq<char>)
    ensures
        forall|i: int|
            0 <= i < without_prefixed(args, prefix).len() ==> !starts_with(
                #[trigger] without_prefixed(args, prefix)[i],
                prefix,
            ),
        flag_value(without_prefixed(args, prefix), prefix) is None,
        without_prefixed(without_prefixed(args, prefix), prefix) == without_prefixed(args, prefix),
    decreases args.len(),
{
    if args.len() > 0 {
        law_extracted_flag_gone(args.drop_last(), prefix);
        let d = without_prefixed(args.drop_last(), prefix);
        if !starts_with(args.last(), prefix) {
            let e = d.push(args.last());
            assert forall|i: int| 0 <= i < e.len() implies !starts_with(#[trigger] e[i], prefix) by {
                if i < d.len() {
                    assert(e[i] == d[i]);
                }
            }
            assert(e.drop_last() =~= d);
        }
    }
}

/// Once a boolean flag is extracted, it is no longer among the arguments.
pub proof fn law_bool_flag_gone(args: Seq<Seq<char>>, flag: Seq<char>)
    ensures
        !without_flag(args, flag).contains(flag),
    decreases args.len(),
{
    if args.len() > 0 {
        law_bool_flag_gone(args.drop_last(), flag);
        let d = without_flag(args.drop_last(), flag);
        if args.last() != flag {
            let e = d.push(args.last());
            if e.contains(flag) {
                let i = choose|i: int| 0 <= i < e.len() && e[i] == flag;
                if i < d.len() {
                    assert(d[i] == flag);
                }
            }
        }
    }
}

/// The compiler's arguments name a sysroot exactly when the given ones did
/// or one was found; a sysroot is never given twice by the tool.
pub proof fn law_sysroot_once(rustc: Seq<char>, args: Seq<Seq<char>>, sysroot: Option<Seq<char>>)
    ensures
        names_sysroot(compiler_args(rustc, args, sysroot).drop_first()) == (names_sysroot(args)
            || sysroot is Some),
        names_sysroot(args) ==> compiler_args(rustc, args, sysroot) == seq![rustc] + args,
{
    let c = compiler_args(rustc, args, sysroot);
    let base = seq![rustc] + args;
    assert(base.drop_first() =~= args);
    match sysroot {
        Some(dir) => {
            if !names_sysroot(args) {
                let full = base + seq!["--sysroot"@, dir];
                assert(full.drop_first() =~= args + seq!["--sysroot"@, dir]);
                assert(full.drop_first()[args.len() as int] == "--sysroot"@);
                assert forall|i: int|
                    0 <= i < full.drop_first().len() && (full.drop_first()[i] == "--sysroot"@
                        || starts_with(#[trigger] full.drop_first()[i], "--sysroot="@)) implies i
                    == args.len() || i == args.len() + 1 || (0 <= i < args.len() && (args[i]
                    == "--sysroot"@ || starts_with(args[i], "--sysroot="@))) by {
                    if i < args.len() {
                        assert(full.drop_first()[i] == args[i]);
                    }
                }
            }
        },
        None => {},
    }
    if names_sysroot(args) {
        let i = choose|i: int|
            0 <= i < args.len() && (args[i] == "--sysroot"@ || starts_with(
                #[trigger] args[i],
                "--sysroot="@,
            ));
        assert(c.drop_first()[i] == args[i]);
    }
}


// ── annotation text ───────────────────────────────────────────────────

/// Reading back the annotation text of a type gives the type, for types
/// built from the built-in types and plainly named classes by arrays,
/// optionals, typed tables and variadics; a compound one is read by
/// `parse_embedded`, every one by `parse_atom`.
pub proof fn law_display_reads_back(t: LuaTy)
    requires
        simple_ty(t),
    ensures
        parse_atom(ty_text(t)) == t,
        !word_ty(t) ==> parse_embedded(ty_text(t)) == Some(t),
{
    lemma_reparse(t);
}

// ── registrations ─────────────────────────────────────────────────────

/// A module marked exported is exported afterwards.
pub proof fn law_marking_exports_module(
    cs: Seq<(String, Vec<String>)>,
    s: Set<Seq<char>>,
    name: Seq<char>,
)
    ensures
        marked(cs, s, name).contains(name),
{
    if !s.contains(name) {
        lemma_chain_start(cs, s, name);
    }
}

/// Marking a module exported a second time changes nothing.
pub proof fn law_marking_again_changes_nothing(
    cs: Seq<(String, Vec<String>)>,
    s: Set<Seq<char>>,
    name: Seq<char>,
)
    ensures
        marked(cs, marked(cs, s, name), name) == marked(cs, s, name),
{
    let m = marked(cs, s, name);
    law_marking_exports_module(cs, s, name);
    assert forall|n: Seq<char>| !reaches(cs, m, name, n) by {
        if reaches(cs, m, name, n) {
            let p = choose|p: Seq<Seq<char>>| #[trigger] is_chain(cs, m, p) && p[0] == name && p.last() == n;
            assert(!m.contains(p[0]));
        }
    }
    assert(marked(cs, m, name) =~= m);
}

/// Every module nested in a module that marking exported is exported too.
pub proof fn law_nested_in_exported_is_exported(
    cs: Seq<(String, Vec<String>)>,
    s: Set<Seq<char>>,
    name: Seq<char>,
    n: Seq<char>,
    c: Seq<char>,
)
    requires
        marked(cs, s, name).contains(n),
        !s.contains(n),
        children_of(cs, n).contains(c),
    ensures
        marked(cs, s, name).contains(c),
{
    if !s.contains(c) {
        let p = choose|p: Seq<Seq<char>>| #[trigger] is_chain(cs, s, p) && p[0] == name && p.last() == n;
        let q = p.push(c);
        assert forall|i: int| 0 <= i < q.len() implies !s.contains(#[trigger] q[i]) by {
            if i < p.len() {
                assert(q[i] == p[i]);
            }
        }
        assert forall|i: int| 0 <= i < q.len() - 1 implies #[trigger] nested_at(cs, q, i) by {
            assert(q[i] == p[i]);
            if i < p.len() - 1 {
                assert(q[i + 1] == p[i + 1]);
                assert(nested_at(cs, p, i));
            }
        }
        assert(is_chain(cs, s, q));
        assert(reaches(cs, s, name, c));
    }
}

} // verus!
