//! Refining extracted types: which of two inferred types says more, when
//! types inferred from a body replace the declared ones, and how branch
//! results are merged.
use vstd::prelude::*;

use crate::codegen::{is_error_return, is_error_type};
use crate::display::nat_max;
use crate::heck_case::{heck_snake_case, snake_case};
use crate::snippets::{
    closure_params_snippet, closure_params_text, extract_all_generic_type_names, generic_names,
    is_any_userdata_text, is_any_userdata_type_snippet, last_path_segment, last_segment,
    lemma_segment_scan_bound, param_type_annotation, top_level_param_type_annotation,
};
use crate::text::{
    contains, contains_exec, find_char, find_char_exec, lemma_find_char_sound, lemma_trim_len, owned, slices_view, split_top_level,
    split_top_level_exec, starts_with, starts_with_exec, str_eq, trim, trim_exec,
};
use crate::union::{
    any_generic_ref, any_member, drop_generic_refs, is_generic_ref, is_generic_userdata_ref_type,
    keep_members, lemma_take_step, make_union, pred_generic_ref, pred_not_generic_ref,
    ref_alias_target, rename_ref_exec, union_of,
};
use crate::{ty_clone, ty_eq, tys_view, LuaReturn, LuaTy, LuaType};

verus! {

broadcast use vstd::std_specs::vec::group_vec_axioms;

// ── how much a type says ──────────────────────────────────────────────

/// Whether a type carries useful information: not `any`, `nil` or a bare
/// `function`, nor an optional or variadic of such, nor an opaque class
/// (one whose name holds `{opaque` or starts with `{`).
pub open spec fn informative(t: LuaTy) -> bool
    decreases t,
{
    match t {
        LuaTy::Any | LuaTy::Nil | LuaTy::Function => false,
        LuaTy::Optional(inner) => informative(*inner),
        LuaTy::Variadic(inner) => informative(*inner),
        LuaTy::Class(name) => !(contains(name, "{opaque"@) || (name.len() > 0 && name[0] == '{')),
        _ => true,
    }
}

/// Returns true if a type carries useful type information (not `any`,
/// `nil`, or a bare `function`), rejecting optional `any` as well.
pub fn is_informative(ty: &LuaType) -> (r: bool)
    ensures
        r == informative(ty@),
    decreases ty,
{
    match ty {
        LuaType::Any | LuaType::Nil | LuaType::Function => false,
        LuaType::Optional(inner) => is_informative(inner),
        LuaType::Variadic(inner) => is_informative(inner),
        LuaType::Class(name) => {
            let s = name.as_str();
            let opaque = contains_exec(s, "{opaque");
            let braced = s.unicode_len() > 0 && s.get_char(0) == '{';
            !(opaque || braced)
        },
        _ => true,
    }
}

/// Whether the type is an error class that leaked through `Result`
/// unwrapping; Lua throws errors rather than returning them.
pub fn is_error_class(ty: &LuaType) -> (r: bool)
    ensures
        r == is_error_type(ty@),
{
    is_error_return(ty)
}

/// `any` and `string`, possibly optional: what a body erases a value to.
pub open spec fn erased(t: LuaTy) -> bool
    decreases t,
{
    match t {
        LuaTy::Any | LuaTy::String => true,
        LuaTy::Optional(inner) => erased(*inner),
        _ => false,
    }
}

pub fn is_erased_body_type(ty: &LuaType) -> (r: bool)
    ensures
        r == erased(ty@),
    decreases ty,
{
    match ty {
        LuaType::Any | LuaType::String => true,
        LuaType::Optional(inner) => is_erased_body_type(inner),
        _ => false,
    }
}

/// Whether `inferred` refines `existing`: a union refines it when one of
/// its members does; `any` and `nil` are refined by anything informative,
/// `function` by a signature, `string` by string literals, `table` by an
/// array, typed table, class or literals, a variadic by a variadic whose
/// element refines its own (or when its own says nothing), and an optional
/// by what refines its inner type.
pub open spec fn better(existing: LuaTy, inferred: LuaTy) -> bool
    decreases existing, inferred, 1int,
{
    match inferred {
        LuaTy::Union(items) => better_any(existing, items),
        _ => match existing {
            LuaTy::Any | LuaTy::Nil => informative(inferred),
            LuaTy::Function => inferred is FunctionSig,
            LuaTy::String => inferred is StringLiteral,
            LuaTy::Variadic(inner) => match inferred {
                LuaTy::Variadic(inferred_inner) => better(*inner, *inferred_inner) || !informative(
                    *inner,
                ),
                _ => false,
            },
            LuaTy::Table => inferred is Array || inferred is TypedTable || inferred is Class
                || inferred is StringLiteral,
            LuaTy::Optional(inner) => better(*inner, inferred),
            _ => false,
        },
    }
}

/// Whether some member of `items` refines `existing`.
pub open spec fn better_any(existing: LuaTy, items: Seq<LuaTy>) -> bool
    decreases existing, items, 0int,
{
    if items.len() == 0 {
        false
    } else {
        better_any(existing, items.drop_last()) || better(existing, items.last())
    }
}

/// Whether `inferred` is a more useful type than `existing` (see [`better`]).
pub fn is_better_inferred_type(existing: &LuaType, inferred: &LuaType) -> (r: bool)
    ensures
        r == better(existing@, inferred@),
    decreases existing, inferred, 1int,
{
    if let LuaType::Union(items) = inferred {
        return any_better(existing, items);
    }
    match existing {
        LuaType::Any | LuaType::Nil => is_informative(inferred),
        LuaType::Function => matches!(inferred, LuaType::FunctionSig { .. }),
        LuaType::String => matches!(inferred, LuaType::StringLiteral(_)),
        LuaType::Variadic(inner) => match inferred {
            LuaType::Variadic(inferred_inner) => is_better_inferred_type(inner, inferred_inner)
                || !is_informative(inner),
            _ => false,
        },
        LuaType::Table => matches!(
            inferred,
            LuaType::Array(_) | LuaType::TypedTable(_, _) | LuaType::Class(_)
                | LuaType::StringLiteral(_)
        ),
        LuaType::Optional(inner) => is_better_inferred_type(inner, inferred),
        _ => false,
    }
}

fn any_better(existing: &LuaType, items: &Vec<LuaType>) -> (r: bool)
    ensures
        r == better_any(existing@, tys_view(*items)),
    decreases existing, items, 0int,
{
    let ghost s = tys_view(*items);
    let mut found = false;
    let mut i: usize = 0;
    while i < items.len()
        invariant
            s == tys_view(*items),
            i <= items.len(),
            found == better_any(existing@, s.take(i as int)),
        decreases items.len() - i,
    {
        proof {
            lemma_take_step(s, i as int);
        }
        let b = is_better_inferred_type(existing, &items[i]);
        found = found || b;
        i += 1;
    }
    assert(s.take(items.len() as int) =~= s);
    found
}

/// Whether a type inferred from a function body should replace the one the
/// signature gave: the inferred type must be informative, and either refine
/// the existing one, or the existing one says nothing, or the existing one
/// is erased and the inferred one is not.
pub open spec fn prefer_body(existing: LuaTy, inferred: LuaTy) -> bool {
    informative(inferred) && (better(existing, inferred) || !informative(existing) || (erased(
        existing,
    ) && !erased(inferred)))
}

pub fn should_prefer_body_inference(existing: &LuaType, inferred: &LuaType) -> (r: bool)
    ensures
        r == prefer_body(existing@, inferred@),
{
    if !is_informative(inferred) {
        return false;
    }
    is_better_inferred_type(existing, inferred) || !is_informative(existing) || (
    is_erased_body_type(existing) && !is_erased_body_type(inferred))
}

/// The inferred type, made optional again where the existing type was an
/// optional erased type and the inferred one is not optional.
pub open spec fn rewrapped(existing: LuaTy, inferred: LuaTy) -> LuaTy {
    match existing {
        LuaTy::Optional(inner) => if erased(*inner) && !(inferred is Optional) {
            LuaTy::Optional(Box::new(inferred))
        } else {
            inferred
        },
        _ => inferred,
    }
}

pub fn rewrap_erased_body_inference(existing: &LuaType, inferred: &LuaType) -> (r: LuaType)
    ensures
        r@ == rewrapped(existing@, inferred@),
{
    match existing {
        LuaType::Optional(inner) => {
            if is_erased_body_type(inner) && !matches!(inferred, LuaType::Optional(_)) {
                LuaType::Optional(Box::new(ty_clone(inferred)))
            } else {
                ty_clone(inferred)
            }
        },
        _ => ty_clone(inferred),
    }
}

/// The best body inference after seeing `candidate`.
pub open spec fn merged_body(best: Option<LuaTy>, candidate: LuaTy) -> Option<LuaTy> {
    if !informative(candidate) {
        best
    } else {
        match best {
            Some(current) => if prefer_body(current, candidate) {
                Some(rewrapped(current, candidate))
            } else {
                Some(current)
            },
            None => Some(candidate),
        }
    }
}

pub open spec fn opt_ty_view(o: Option<LuaType>) -> Option<LuaTy> {
    match o {
        Some(t) => Some(t@),
        None => None,
    }
}

/// Keeps the better of the best inference so far and `candidate`.
pub fn merge_body_inference(best: Option<LuaType>, candidate: LuaType) -> (r: Option<LuaType>)
    ensures
        opt_ty_view(r) == merged_body(opt_ty_view(best), candidate@),
{
    if !is_informative(&candidate) {
        return best;
    }
    match best {
        Some(current) => {
            if should_prefer_body_inference(&current, &candidate) {
                Some(rewrap_erased_body_inference(&current, &candidate))
            } else {
                Some(current)
            }
        },
        None => Some(candidate),
    }
}

// ── replacing declared returns ───────────────────────────────────────

/// Whether the returns inferred from a body replace the declared ones: an
/// empty inference replaces a non-empty declaration; one with nothing
/// informative never replaces; anything informative replaces an empty
/// declaration; a different count replaces a declaration with nothing
/// informative; an equal count replaces when each position prefers the
/// body's type.
pub open spec fn replace_returns(existing: Seq<LuaReturn>, inferred: Seq<LuaReturn>) -> bool {
    if inferred.len() == 0 {
        existing.len() > 0
    } else if forall|k: int| 0 <= k < inferred.len() ==> !informative(#[trigger] inferred[k].ty@) {
        false
    } else if existing.len() == 0 {
        true
    } else if existing.len() != inferred.len() {
        forall|k: int| 0 <= k < existing.len() ==> !informative(#[trigger] existing[k].ty@)
    } else {
        forall|k: int|
            0 <= k < existing.len() ==> #[trigger] prefer_body(existing[k].ty@, inferred[k].ty@)
    }
}

fn all_uninformative(rs: &[LuaReturn]) -> (r: bool)
    ensures
        r == forall|k: int| 0 <= k < rs@.len() ==> !informative(#[trigger] rs@[k].ty@),
{
    let mut i: usize = 0;
    while i < rs.len()
        invariant
            i <= rs@.len(),
            forall|k: int| 0 <= k < i ==> !informative(#[trigger] rs@[k].ty@),
        decreases rs.len() - i,
    {
        if is_informative(&rs[i].ty) {
            return false;
        }
        i += 1;
    }
    true
}

pub fn should_replace_returns(existing: &[LuaReturn], inferred: &[LuaReturn]) -> (r: bool)
    ensures
        r == replace_returns(existing@, inferred@),
{
    if inferred.len() == 0 {
        return existing.len() > 0;
    }
    if all_uninformative(inferred) {
        return false;
    }
    if existing.len() == 0 {
        return true;
    }
    if existing.len() != inferred.len() {
        return all_uninformative(existing);
    }
    let mut i: usize = 0;
    while i < existing.len()
        invariant
            existing@.len() == inferred@.len(),
            i <= existing@.len(),
            forall|k: int| 0 <= k < i ==> #[trigger] prefer_body(existing@[k].ty@, inferred@[k].ty@),
        decreases existing.len() - i,
    {
        if !should_prefer_body_inference(&existing[i].ty, &inferred[i].ty) {
            return false;
        }
        i += 1;
    }
    true
}

/// Replaces `rets` by `inferred` where [`replace_returns`] says so.
pub fn merge_inferred_returns(rets: &mut Vec<LuaReturn>, inferred: Option<Vec<LuaReturn>>)
    ensures
        final(rets)@ == (match inferred {
            Some(v) => if replace_returns(old(rets)@, v@) {
                v@
            } else {
                old(rets)@
            },
            None => old(rets)@,
        }),
{
    if let Some(v) = inferred {
        if should_replace_returns(rets.as_slice(), v.as_slice()) {
            *rets = v;
        }
    }
}

// ── explicit parameter annotations ───────────────────────────────────

/// Whether an explicit annotation should replace the type inferred for a
/// parameter.
pub open spec fn prefer_explicit(existing: LuaTy, explicit: LuaTy) -> bool {
    if existing == explicit {
        false
    } else {
        match existing {
            LuaTy::Any | LuaTy::Table | LuaTy::Nil => informative(explicit),
            LuaTy::String => explicit is Class || explicit is Optional || explicit is Union
                || explicit is Array || explicit is TypedTable,
            _ => if is_generic_ref(existing) {
                !is_generic_ref(explicit)
            } else {
                better(existing, explicit) || !informative(existing)
            },
        }
    }
}

pub fn should_prefer_explicit_param_type(existing: &LuaType, explicit: &LuaType) -> (r: bool)
    ensures
        r == prefer_explicit(existing@, explicit@),
{
    if ty_eq(existing, explicit) {
        return false;
    }
    match existing {
        LuaType::Any | LuaType::Table | LuaType::Nil => is_informative(explicit),
        LuaType::String => matches!(
            explicit,
            LuaType::Class(_) | LuaType::Optional(_) | LuaType::Union(_) | LuaType::Array(_)
                | LuaType::TypedTable(_, _)
        ),
        _ => {
            if is_generic_userdata_ref_type(existing) {
                !is_generic_userdata_ref_type(explicit)
            } else {
                is_better_inferred_type(existing, explicit) || !is_informative(existing)
            }
        },
    }
}

// ── Lua value constructors ────────────────────────────────────────────

/// The type a `Value::<variant>` constructor makes, where it names one.
pub open spec fn value_variant_ty(v: Seq<char>) -> Option<LuaTy> {
    if v == "Nil"@ {
        Some(LuaTy::Nil)
    } else if v == "Boolean"@ {
        Some(LuaTy::Boolean)
    } else if v == "Integer"@ {
        Some(LuaTy::Integer)
    } else if v == "Number"@ {
        Some(LuaTy::Number)
    } else if v == "String"@ {
        Some(LuaTy::String)
    } else if v == "LightUserData"@ {
        Some(LuaTy::Any)
    } else if v == "Table"@ {
        Some(LuaTy::Table)
    } else if v == "Function"@ {
        Some(LuaTy::Function)
    } else if v == "Thread"@ {
        Some(LuaTy::Thread)
    } else {
        None
    }
}

/// Map a `LuaValue::Variant` constructor name to a concrete type; `None`
/// for variants that do not narrow it (user data, errors).
pub fn lua_value_variant_to_type(variant_name: &str) -> (r: Option<LuaType>)
    ensures
        opt_ty_view(r) == value_variant_ty(variant_name@),
{
    if str_eq(variant_name, "Nil") {
        Some(LuaType::Nil)
    } else if str_eq(variant_name, "Boolean") {
        Some(LuaType::Boolean)
    } else if str_eq(variant_name, "Integer") {
        Some(LuaType::Integer)
    } else if str_eq(variant_name, "Number") {
        Some(LuaType::Number)
    } else if str_eq(variant_name, "String") {
        Some(LuaType::String)
    } else if str_eq(variant_name, "LightUserData") {
        Some(LuaType::Any)
    } else if str_eq(variant_name, "Table") {
        Some(LuaType::Table)
    } else if str_eq(variant_name, "Function") {
        Some(LuaType::Function)
    } else if str_eq(variant_name, "Thread") {
        Some(LuaType::Thread)
    } else {
        None
    }
}

// ── rewriting types deeply ────────────────────────────────────────────

/// `t` with every class reference alias (`FileRef`, `FileRefMut`) renamed
/// to its class, at any depth.
pub open spec fn ref_aliases_renamed(t: LuaTy) -> LuaTy
    decreases t, 1int,
{
    match t {
        LuaTy::Class(name) => LuaTy::Class(ref_alias_target(name)),
        LuaTy::Array(inner) => LuaTy::Array(Box::new(ref_aliases_renamed(*inner))),
        LuaTy::Optional(inner) => LuaTy::Optional(Box::new(ref_aliases_renamed(*inner))),
        LuaTy::Variadic(inner) => LuaTy::Variadic(Box::new(ref_aliases_renamed(*inner))),
        LuaTy::TypedTable(k, v) => LuaTy::TypedTable(
            Box::new(ref_aliases_renamed(*k)),
            Box::new(ref_aliases_renamed(*v)),
        ),
        LuaTy::Union(items) => LuaTy::Union(ref_aliases_renamed_seq(items)),
        LuaTy::FunctionSig { params, returns: rets } => LuaTy::FunctionSig {
            params: ref_aliases_renamed_seq(params),
            returns: ref_aliases_renamed_seq(rets),
        },
        other => other,
    }
}

/// Each member of `s` with its reference aliases renamed.
pub open spec fn ref_aliases_renamed_seq(s: Seq<LuaTy>) -> Seq<LuaTy>
    decreases s, 0int,
{
    Seq::new(
        s.len(),
        |i: int|
            if 0 <= i < s.len() {
                ref_aliases_renamed(s[i])
            } else {
                LuaTy::Nil
            },
    )
}

fn ref_aliases_renamed_exec(t: &LuaType) -> (r: LuaType)
    ensures
        r@ == ref_aliases_renamed(t@),
    decreases t,
{
    match t {
        LuaType::Class(_) => rename_ref_exec(ty_clone(t)),
        LuaType::Array(inner) => LuaType::Array(Box::new(ref_aliases_renamed_exec(inner))),
        LuaType::Optional(inner) => LuaType::Optional(Box::new(ref_aliases_renamed_exec(inner))),
        LuaType::Variadic(inner) => LuaType::Variadic(Box::new(ref_aliases_renamed_exec(inner))),
        LuaType::TypedTable(k, v) => LuaType::TypedTable(
            Box::new(ref_aliases_renamed_exec(k)),
            Box::new(ref_aliases_renamed_exec(v)),
        ),
        LuaType::Union(items) => LuaType::Union(ref_aliases_renamed_vec(items)),
        LuaType::FunctionSig { params, returns: rets } => LuaType::FunctionSig {
            params: ref_aliases_renamed_vec(params),
            returns: ref_aliases_renamed_vec(rets),
        },
        _ => ty_clone(t),
    }
}

fn ref_aliases_renamed_vec(v: &Vec<LuaType>) -> (r: Vec<LuaType>)
    ensures
        tys_view(r) == ref_aliases_renamed_seq(tys_view(*v)),
    decreases v,
{
    let mut out: Vec<LuaType> = Vec::new();
    let mut i: usize = 0;
    while i < v.len()
        invariant
            i <= v.len(),
            out.len() == i,
            forall|j: int| 0 <= j < i ==> out[j]@ == ref_aliases_renamed(v[j]@),
        decreases v.len() - i,
    {
        out.push(ref_aliases_renamed_exec(&v[i]));
        i += 1;
    }
    assert(tys_view(out) =~= ref_aliases_renamed_seq(tys_view(*v)));
    out
}

/// Renames class reference aliases inside `ty` to their classes (see
/// [`ref_aliases_renamed`]).
pub fn normalize_userdata_ref_alias_type(ty: &mut LuaType)
    ensures
        final(ty)@ == ref_aliases_renamed(old(ty)@),
{
    let r = ref_aliases_renamed_exec(ty);
    *ty = r;
}

/// `t` with every reference to the class `from` renamed to `to`.
pub open spec fn class_renamed(t: LuaTy, from: Seq<char>, to: Seq<char>) -> LuaTy
    decreases t, 1int,
{
    match t {
        LuaTy::Class(name) => if name == from {
            LuaTy::Class(to)
        } else {
            LuaTy::Class(name)
        },
        LuaTy::Array(inner) => LuaTy::Array(Box::new(class_renamed(*inner, from, to))),
        LuaTy::Optional(inner) => LuaTy::Optional(Box::new(class_renamed(*inner, from, to))),
        LuaTy::Variadic(inner) => LuaTy::Variadic(Box::new(class_renamed(*inner, from, to))),
        LuaTy::TypedTable(k, v) => LuaTy::TypedTable(
            Box::new(class_renamed(*k, from, to)),
            Box::new(class_renamed(*v, from, to)),
        ),
        LuaTy::Union(items) => LuaTy::Union(class_renamed_seq(items, from, to)),
        LuaTy::FunctionSig { params, returns: rets } => LuaTy::FunctionSig {
            params: class_renamed_seq(params, from, to),
            returns: class_renamed_seq(rets, from, to),
        },
        other => other,
    }
}

pub open spec fn class_renamed_seq(s: Seq<LuaTy>, from: Seq<char>, to: Seq<char>) -> Seq<LuaTy>
    decreases s, 0int,
{
    Seq::new(
        s.len(),
        |i: int|
            if 0 <= i < s.len() {
                class_renamed(s[i], from, to)
            } else {
                LuaTy::Nil
            },
    )
}

fn class_renamed_exec(t: &LuaType, from: &str, to: &str) -> (r: LuaType)
    ensures
        r@ == class_renamed(t@, from@, to@),
    decreases t,
{
    match t {
        LuaType::Class(name) => {
            if str_eq(name.as_str(), from) {
                LuaType::Class(owned(to))
            } else {
                LuaType::Class(owned(name.as_str()))
            }
        },
        LuaType::Array(inner) => LuaType::Array(Box::new(class_renamed_exec(inner, from, to))),
        LuaType::Optional(inner) => LuaType::Optional(
            Box::new(class_renamed_exec(inner, from, to)),
        ),
        LuaType::Variadic(inner) => LuaType::Variadic(
            Box::new(class_renamed_exec(inner, from, to)),
        ),
        LuaType::TypedTable(k, v) => LuaType::TypedTable(
            Box::new(class_renamed_exec(k, from, to)),
            Box::new(class_renamed_exec(v, from, to)),
        ),
        LuaType::Union(items) => LuaType::Union(class_renamed_vec(items, from, to)),
        LuaType::FunctionSig { params, returns: rets } => LuaType::FunctionSig {
            params: class_renamed_vec(params, from, to),
            returns: class_renamed_vec(rets, from, to),
        },
        _ => ty_clone(t),
    }
}

fn class_renamed_vec(v: &Vec<LuaType>, from: &str, to: &str) -> (r: Vec<LuaType>)
    ensures
        tys_view(r) == class_renamed_seq(tys_view(*v), from@, to@),
    decreases v,
{
    let mut out: Vec<LuaType> = Vec::new();
    let mut i: usize = 0;
    while i < v.len()
        invariant
            i <= v.len(),
            out.len() == i,
            forall|j: int| 0 <= j < i ==> out[j]@ == class_renamed(v[j]@, from@, to@),
        decreases v.len() - i,
    {
        out.push(class_renamed_exec(&v[i], from, to));
        i += 1;
    }
    assert(tys_view(out) =~= class_renamed_seq(tys_view(*v), from@, to@));
    out
}

/// The class that stands for "returns `Self`" while a class is extracted:
/// a class with an empty name.
pub fn self_return_sentinel() -> (r: LuaType)
    ensures
        r@ == LuaTy::Class(Seq::empty()),
{
    LuaType::Class(String::new())
}

pub fn is_self_return_sentinel(ty: &LuaType) -> (r: bool)
    ensures
        r == (ty@ matches LuaTy::Class(name) && name.len() == 0),
{
    match ty {
        LuaType::Class(name) => name.as_str().unicode_len() == 0,
        _ => false,
    }
}

/// Whether the "returns `Self`" sentinel occurs anywhere in `t`.
pub open spec fn has_sentinel(t: LuaTy) -> bool
    decreases t, 1int,
{
    match t {
        LuaTy::Class(name) => name.len() == 0,
        LuaTy::Array(inner) => has_sentinel(*inner),
        LuaTy::Optional(inner) => has_sentinel(*inner),
        LuaTy::Variadic(inner) => has_sentinel(*inner),
        LuaTy::TypedTable(k, v) => has_sentinel(*k) || has_sentinel(*v),
        LuaTy::Union(items) => has_sentinel_seq(items),
        LuaTy::FunctionSig { params, returns: rets } => has_sentinel_seq(params) || has_sentinel_seq(
            rets,
        ),
        _ => false,
    }
}

pub open spec fn has_sentinel_seq(s: Seq<LuaTy>) -> bool
    decreases s, 0int,
{
    exists|i: int| 0 <= i < s.len() && has_sentinel(#[trigger] s[i])
}

pub fn contains_self_return_sentinel(ty: &LuaType) -> (r: bool)
    ensures
        r == has_sentinel(ty@),
    decreases ty,
{
    match ty {
        LuaType::Class(_) => is_self_return_sentinel(ty),
        LuaType::Array(inner) | LuaType::Optional(inner) | LuaType::Variadic(inner) => {
            contains_self_return_sentinel(inner)
        },
        LuaType::TypedTable(k, v) => contains_self_return_sentinel(k)
            || contains_self_return_sentinel(v),
        LuaType::Union(items) => any_sentinel(items),
        LuaType::FunctionSig { params, returns: rets } => any_sentinel(params) || any_sentinel(
            rets,
        ),
        _ => false,
    }
}

fn any_sentinel(v: &Vec<LuaType>) -> (r: bool)
    ensures
        r == has_sentinel_seq(tys_view(*v)),
    decreases v,
{
    let mut i: usize = 0;
    while i < v.len()
        invariant
            i <= v.len(),
            forall|j: int| 0 <= j < i ==> !has_sentinel(#[trigger] tys_view(*v)[j]),
        decreases v.len() - i,
    {
        assert(tys_view(*v)[i as int] == v[i as int]@);
        if contains_self_return_sentinel(&v[i]) {
            return true;
        }
        i += 1;
    }
    false
}

/// Replaces the "returns `Self`" sentinel inside `ty` with `class_name`.
pub fn replace_self_return_sentinel(ty: &mut LuaType, class_name: &str)
    ensures
        final(ty)@ == class_renamed(old(ty)@, Seq::empty(), class_name@),
{
    proof {
        reveal_strlit("");
        assert(""@ =~= Seq::<char>::empty());
    }
    let r = class_renamed_exec(ty, "", class_name);
    *ty = r;
}

/// Replaces references to `Self` inside `ty` with `class_name`.
pub fn replace_self_class_alias(ty: &mut LuaType, class_name: &str)
    ensures
        final(ty)@ == class_renamed(old(ty)@, "Self"@, class_name@),
{
    let r = class_renamed_exec(ty, "Self", class_name);
    *ty = r;
}

/// The `Lua` runtime handle, as a class.
pub fn lua_runtime_type() -> (r: LuaType)
    ensures
        r@ == LuaTy::Class("Lua"@),
{
    LuaType::Class(owned("Lua"))
}

// ── Rust type names read as Lua types ─────────────────────────────────

/// The text inside `prefix...>` when `q` has that form.
pub open spec fn wrapped_inner(q: Seq<char>, prefix: Seq<char>) -> Option<Seq<char>> {
    if q.len() > prefix.len() && starts_with(q, prefix) && q.last() == '>' {
        Some(q.subrange(prefix.len() as int, q.len() - 1))
    } else {
        None
    }
}

/// The inside of the first transparent wrapper (a userdata reference, a
/// `Ref`, a `Cow`, a lock guard) that `q` has the form of.
pub open spec fn guard_inner(q: Seq<char>) -> Option<Seq<char>> {
    if wrapped_inner(q, "UserDataRef<"@) is Some {
        wrapped_inner(q, "UserDataRef<"@)
    } else if wrapped_inner(q, "UserDataRefMut<"@) is Some {
        wrapped_inner(q, "UserDataRefMut<"@)
    } else if wrapped_inner(q, "Ref<"@) is Some {
        wrapped_inner(q, "Ref<"@)
    } else if wrapped_inner(q, "RefMut<"@) is Some {
        wrapped_inner(q, "RefMut<"@)
    } else if wrapped_inner(q, "Cow<"@) is Some {
        wrapped_inner(q, "Cow<"@)
    } else if wrapped_inner(q, "MutexGuard<"@) is Some {
        wrapped_inner(q, "MutexGuard<"@)
    } else if wrapped_inner(q, "RwLockReadGuard<"@) is Some {
        wrapped_inner(q, "RwLockReadGuard<"@)
    } else {
        wrapped_inner(q, "RwLockWriteGuard<"@)
    }
}

pub open spec fn is_string_name(q: Seq<char>) -> bool {
    q == "String"@ || q == "BString"@ || q == "LuaString"@ || q == "PathBuf"@ || q == "OsString"@
        || q == "OsStr"@ || q == "CString"@ || q == "CStr"@ || q == "str"@
}

pub open spec fn is_integer_name(q: Seq<char>) -> bool {
    q == "Integer"@ || q == "i8"@ || q == "i16"@ || q == "i32"@ || q == "i64"@ || q == "i128"@ || q
        == "isize"@ || q == "u8"@ || q == "u16"@ || q == "u32"@ || q == "u64"@ || q == "u128"@ || q
        == "usize"@
}

/// A plain (unwrapped) type name read as a Lua type: the scalar types,
/// mlua's value types, the unit and error types, else a class.
pub open spec fn named_scalar(q: Seq<char>) -> LuaTy {
    if is_string_name(q) {
        LuaTy::String
    } else if is_integer_name(q) {
        LuaTy::Integer
    } else if q == "Number"@ || q == "f32"@ || q == "f64"@ {
        LuaTy::Number
    } else if q == "Boolean"@ || q == "bool"@ {
        LuaTy::Boolean
    } else if q == "Table"@ || q == "LuaTable"@ {
        LuaTy::Table
    } else if q == "Value"@ || q == "LuaValue"@ {
        LuaTy::Any
    } else if q == "Function"@ || q == "LuaFunction"@ {
        LuaTy::Function
    } else if q == "AnyUserData"@ || q == "LuaAnyUserData"@ {
        LuaTy::Any
    } else if q == "Thread"@ || q == "LuaThread"@ {
        LuaTy::Thread
    } else if q == "Lua"@ {
        LuaTy::Any
    } else if q == "Error"@ || q == "LuaError"@ || q == "()"@ {
        LuaTy::Nil
    } else {
        LuaTy::Class(q)
    }
}

pub proof fn lemma_last_segment_len(s: Seq<char>)
    ensures
        last_segment(s).len() <= s.len(),
{
    lemma_segment_scan_bound(s, 0, 0, 0);
}

/// The Lua type of a Rust type name found in source text: its last path
/// segment, with `Option<T>` optional, `Vec<T>` an array, transparent
/// wrappers unwrapped, `Variadic<T>` variadic and `MultiValue` any values.
pub open spec fn extracted_ty(name: Seq<char>) -> LuaTy
    decreases name.len(),
{
    let q = trim(last_segment(trim(name)));
    proof {
        lemma_trim_len(name);
        lemma_last_segment_len(trim(name));
        lemma_trim_len(last_segment(trim(name)));
    }
    if wrapped_inner(q, "Option<"@) is Some {
        let inner = wrapped_inner(q, "Option<"@)->0;
        proof {
            lemma_trim_len(inner);
        }
        LuaTy::Optional(Box::new(extracted_ty(trim(inner))))
    } else if wrapped_inner(q, "Vec<"@) is Some {
        let inner = wrapped_inner(q, "Vec<"@)->0;
        proof {
            lemma_trim_len(inner);
        }
        LuaTy::Array(Box::new(extracted_ty(trim(inner))))
    } else if guard_inner(q) is Some {
        let inner = guard_inner(q)->0;
        proof {
            lemma_trim_len(inner);
        }
        extracted_ty(trim(inner))
    } else if wrapped_inner(q, "Variadic<"@) is Some {
        let inner = wrapped_inner(q, "Variadic<"@)->0;
        proof {
            lemma_trim_len(inner);
        }
        LuaTy::Variadic(Box::new(extracted_ty(trim(inner))))
    } else if q == "MultiValue"@ {
        LuaTy::Variadic(Box::new(LuaTy::Any))
    } else {
        named_scalar(q)
    }
}

fn strip_wrapper<'a>(q: &'a str, prefix: &str) -> (r: Option<&'a str>)
    ensures
        match r {
            Some(x) => wrapped_inner(q@, prefix@) == Some(x@),
            None => wrapped_inner(q@, prefix@) is None,
        },
{
    let n = q.unicode_len();
    let m = prefix.unicode_len();
    if n > m && starts_with_exec(q, prefix) && q.get_char(n - 1) == '>' {
        Some(q.substring_char(m, n - 1))
    } else {
        None
    }
}

fn strip_guard<'a>(q: &'a str) -> (r: Option<&'a str>)
    ensures
        match r {
            Some(x) => guard_inner(q@) == Some(x@),
            None => guard_inner(q@) is None,
        },
{
    if let Some(x) = strip_wrapper(q, "UserDataRef<") {
        return Some(x);
    }
    if let Some(x) = strip_wrapper(q, "UserDataRefMut<") {
        return Some(x);
    }
    if let Some(x) = strip_wrapper(q, "Ref<") {
        return Some(x);
    }
    if let Some(x) = strip_wrapper(q, "RefMut<") {
        return Some(x);
    }
    if let Some(x) = strip_wrapper(q, "Cow<") {
        return Some(x);
    }
    if let Some(x) = strip_wrapper(q, "MutexGuard<") {
        return Some(x);
    }
    if let Some(x) = strip_wrapper(q, "RwLockReadGuard<") {
        return Some(x);
    }
    strip_wrapper(q, "RwLockWriteGuard<")
}

fn named_scalar_exec(q: &str) -> (r: LuaType)
    ensures
        r@ == named_scalar(q@),
{
    if str_eq(q, "String") || str_eq(q, "BString") || str_eq(q, "LuaString") || str_eq(q, "PathBuf")
        || str_eq(q, "OsString") || str_eq(q, "OsStr") || str_eq(q, "CString") || str_eq(q, "CStr")
        || str_eq(q, "str") {
        LuaType::String
    } else if str_eq(q, "Integer") || str_eq(q, "i8") || str_eq(q, "i16") || str_eq(q, "i32")
        || str_eq(q, "i64") || str_eq(q, "i128") || str_eq(q, "isize") || str_eq(q, "u8") || str_eq(
        q,
        "u16",
    ) || str_eq(q, "u32") || str_eq(q, "u64") || str_eq(q, "u128") || str_eq(q, "usize") {
        LuaType::Integer
    } else if str_eq(q, "Number") || str_eq(q, "f32") || str_eq(q, "f64") {
        LuaType::Number
    } else if str_eq(q, "Boolean") || str_eq(q, "bool") {
        LuaType::Boolean
    } else if str_eq(q, "Table") || str_eq(q, "LuaTable") {
        LuaType::Table
    } else if str_eq(q, "Value") || str_eq(q, "LuaValue") {
        LuaType::Any
    } else if str_eq(q, "Function") || str_eq(q, "LuaFunction") {
        LuaType::Function
    } else if str_eq(q, "AnyUserData") || str_eq(q, "LuaAnyUserData") {
        LuaType::Any
    } else if str_eq(q, "Thread") || str_eq(q, "LuaThread") {
        LuaType::Thread
    } else if str_eq(q, "Lua") {
        LuaType::Any
    } else if str_eq(q, "Error") || str_eq(q, "LuaError") || str_eq(q, "()") {
        LuaType::Nil
    } else {
        LuaType::Class(owned(q))
    }
}

/// Reads a Rust type name found in source text as a Lua type (see
/// [`extracted_ty`]).
pub fn lua_type_from_extracted_name(name: &str) -> (r: LuaType)
    ensures
        r@ == extracted_ty(name@),
    decreases name@.len(),
{
    proof {
        lemma_trim_len(name@);
        lemma_last_segment_len(trim(name@));
        lemma_trim_len(last_segment(trim(name@)));
    }
    let name_t = trim_exec(name);
    let q = trim_exec(last_path_segment(name_t));
    if let Some(inner) = strip_wrapper(q, "Option<") {
        proof {
            lemma_trim_len(inner@);
        }
        return LuaType::Optional(Box::new(lua_type_from_extracted_name(trim_exec(inner))));
    }
    if let Some(inner) = strip_wrapper(q, "Vec<") {
        proof {
            lemma_trim_len(inner@);
        }
        return LuaType::Array(Box::new(lua_type_from_extracted_name(trim_exec(inner))));
    }
    if let Some(inner) = strip_guard(q) {
        proof {
            lemma_trim_len(inner@);
        }
        return lua_type_from_extracted_name(trim_exec(inner));
    }
    if let Some(inner) = strip_wrapper(q, "Variadic<") {
        proof {
            lemma_trim_len(inner@);
        }
        return LuaType::Variadic(Box::new(lua_type_from_extracted_name(trim_exec(inner))));
    }
    if str_eq(q, "MultiValue") {
        let any = LuaType::Any;
        assert(any@ == LuaTy::Any);
        return LuaType::Variadic(Box::new(any));
    }
    named_scalar_exec(q)
}

// ── normalizing inferred types ───────────────────────────────────────

/// Informative and not a generic userdata reference.
pub open spec fn specific(t: LuaTy) -> bool {
    !is_generic_ref(t) && informative(t)
}

pub open spec fn pred_specific() -> spec_fn(LuaTy) -> bool {
    |t: LuaTy| specific(t)
}

pub open spec fn pred_not_table() -> spec_fn(LuaTy) -> bool {
    |t: LuaTy| !(t is Table)
}

/// Where a generic userdata reference sits among `m`: every reference alias
/// renamed to its class and, if some member is specific, the generic
/// references dropped.
pub open spec fn userdata_cleaned(m: Seq<LuaTy>) -> Seq<LuaTy> {
    if any_member(m, pred_generic_ref()) {
        let r = ref_aliases_renamed_seq(m);
        if any_member(r, pred_specific()) {
            keep_members(r, pred_not_generic_ref())
        } else {
            r
        }
    } else {
        m
    }
}

/// The value types of a table: cleaned of generic userdata references as
/// in [`userdata_cleaned`], and without plain `table` where anything more
/// specific is left.
pub open spec fn table_values_normalized(s: Seq<LuaTy>) -> Seq<LuaTy> {
    let s1 = if any_member(s, pred_generic_ref()) {
        ref_aliases_renamed_seq(s)
    } else {
        s
    };
    let s2 = if any_member(s1, pred_specific()) {
        keep_members(s1, pred_not_generic_ref())
    } else {
        s1
    };
    if any_member(s2, pred_not_table()) {
        keep_members(s2, pred_not_table())
    } else {
        s2
    }
}

fn any_specific(v: &Vec<LuaType>) -> (r: bool)
    ensures
        r == any_member(tys_view(*v), pred_specific()),
{
    let ghost s = tys_view(*v);
    let ghost p = pred_specific();
    let mut found = false;
    let mut i: usize = 0;
    while i < v.len()
        invariant
            p == pred_specific(),
            s == tys_view(*v),
            i <= v.len(),
            found == any_member(s.take(i as int), p),
        decreases v.len() - i,
    {
        proof {
            lemma_take_step(s, i as int);
        }
        let b = !is_generic_userdata_ref_type(&v[i]) && is_informative(&v[i]);
        found = found || b;
        i += 1;
    }
    assert(s.take(v.len() as int) =~= s);
    found
}

fn any_not_table(v: &Vec<LuaType>) -> (r: bool)
    ensures
        r == any_member(tys_view(*v), pred_not_table()),
{
    let ghost s = tys_view(*v);
    let ghost p = pred_not_table();
    let mut found = false;
    let mut i: usize = 0;
    while i < v.len()
        invariant
            p == pred_not_table(),
            s == tys_view(*v),
            i <= v.len(),
            found == any_member(s.take(i as int), p),
        decreases v.len() - i,
    {
        proof {
            lemma_take_step(s, i as int);
        }
        let b = !matches!(&v[i], LuaType::Table);
        found = found || b;
        i += 1;
    }
    assert(s.take(v.len() as int) =~= s);
    found
}

fn drop_tables(v: Vec<LuaType>) -> (r: Vec<LuaType>)
    ensures
        tys_view(r) == keep_members(tys_view(v), pred_not_table()),
{
    let ghost s = tys_view(v);
    let ghost p = pred_not_table();
    let mut out: Vec<LuaType> = Vec::new();
    let mut i: usize = 0;
    while i < v.len()
        invariant
            p == pred_not_table(),
            s == tys_view(v),
            i <= v.len(),
            tys_view(out) == keep_members(s.take(i as int), p),
        decreases v.len() - i,
    {
        proof {
            lemma_take_step(s, i as int);
        }
        if !matches!(&v[i], LuaType::Table) {
            let ghost before = tys_view(out);
            out.push(ty_clone(&v[i]));
            assert(tys_view(out) =~= before.push(s[i as int]));
        }
        i += 1;
    }
    assert(s.take(v.len() as int) =~= s);
    out
}

fn userdata_cleaned_exec(items: Vec<LuaType>) -> (r: Vec<LuaType>)
    ensures
        tys_view(r) == userdata_cleaned(tys_view(items)),
{
    if !any_generic_ref(&items) {
        return items;
    }
    let renamed = ref_aliases_renamed_vec(&items);
    if any_specific(&renamed) {
        drop_generic_refs(renamed)
    } else {
        renamed
    }
}

/// Normalizes the value types collected for a table (see
/// [`table_values_normalized`]).
pub fn normalize_table_value_types(value_types: Vec<LuaType>) -> (r: Vec<LuaType>)
    ensures
        tys_view(r) == table_values_normalized(tys_view(value_types)),
{
    let s1 = if any_generic_ref(&value_types) {
        ref_aliases_renamed_vec(&value_types)
    } else {
        value_types
    };
    let s2 = if any_specific(&s1) {
        drop_generic_refs(s1)
    } else {
        s1
    };
    if any_not_table(&s2) {
        drop_tables(s2)
    } else {
        s2
    }
}

/// An inferred type with every union rebuilt from its normalized members,
/// cleaned of generic userdata references (see [`userdata_cleaned`]).
pub open spec fn inferred_normalized(t: LuaTy) -> LuaTy
    decreases t, 1int,
{
    match t {
        LuaTy::Array(inner) => LuaTy::Array(Box::new(inferred_normalized(*inner))),
        LuaTy::Optional(inner) => LuaTy::Optional(Box::new(inferred_normalized(*inner))),
        LuaTy::TypedTable(k, v) => LuaTy::TypedTable(
            Box::new(inferred_normalized(*k)),
            Box::new(inferred_normalized(*v)),
        ),
        LuaTy::Union(items) => union_of(userdata_cleaned(inferred_normalized_seq(items))),
        LuaTy::Variadic(inner) => LuaTy::Variadic(Box::new(inferred_normalized(*inner))),
        LuaTy::FunctionSig { params, returns: rets } => LuaTy::FunctionSig {
            params: inferred_normalized_seq(params),
            returns: inferred_normalized_seq(rets),
        },
        other => other,
    }
}

pub open spec fn inferred_normalized_seq(s: Seq<LuaTy>) -> Seq<LuaTy>
    decreases s, 0int,
{
    Seq::new(
        s.len(),
        |i: int|
            if 0 <= i < s.len() {
                inferred_normalized(s[i])
            } else {
                LuaTy::Nil
            },
    )
}

fn inferred_normalized_exec(t: &LuaType) -> (r: LuaType)
    ensures
        r@ == inferred_normalized(t@),
    decreases t,
{
    match t {
        LuaType::Array(inner) => LuaType::Array(Box::new(inferred_normalized_exec(inner))),
        LuaType::Optional(inner) => LuaType::Optional(Box::new(inferred_normalized_exec(inner))),
        LuaType::TypedTable(k, v) => LuaType::TypedTable(
            Box::new(inferred_normalized_exec(k)),
            Box::new(inferred_normalized_exec(v)),
        ),
        LuaType::Union(items) => make_union(userdata_cleaned_exec(inferred_normalized_vec(items))),
        LuaType::Variadic(inner) => LuaType::Variadic(Box::new(inferred_normalized_exec(inner))),
        LuaType::FunctionSig { params, returns: rets } => LuaType::FunctionSig {
            params: inferred_normalized_vec(params),
            returns: inferred_normalized_vec(rets),
        },
        _ => ty_clone(t),
    }
}

fn inferred_normalized_vec(v: &Vec<LuaType>) -> (r: Vec<LuaType>)
    ensures
        tys_view(r) == inferred_normalized_seq(tys_view(*v)),
    decreases v,
{
    let mut out: Vec<LuaType> = Vec::new();
    let mut i: usize = 0;
    while i < v.len()
        invariant
            i <= v.len(),
            out.len() == i,
            forall|j: int| 0 <= j < i ==> out[j]@ == inferred_normalized(v[j]@),
        decreases v.len() - i,
    {
        out.push(inferred_normalized_exec(&v[i]));
        i += 1;
    }
    assert(tys_view(out) =~= inferred_normalized_seq(tys_view(*v)));
    out
}

/// Normalizes an inferred type (see [`inferred_normalized`]).
pub fn normalize_inferred_lua_type(ty: LuaType) -> (r: LuaType)
    ensures
        r@ == inferred_normalized(ty@),
{
    inferred_normalized_exec(&ty)
}

/// A parameter type with every union rebuilt from its normalized members.
pub open spec fn param_normalized(t: LuaTy) -> LuaTy
    decreases t, 1int,
{
    match t {
        LuaTy::Array(inner) => LuaTy::Array(Box::new(param_normalized(*inner))),
        LuaTy::Optional(inner) => LuaTy::Optional(Box::new(param_normalized(*inner))),
        LuaTy::TypedTable(k, v) => LuaTy::TypedTable(
            Box::new(param_normalized(*k)),
            Box::new(param_normalized(*v)),
        ),
        LuaTy::Union(items) => union_of(param_normalized_seq(items)),
        LuaTy::Variadic(inner) => LuaTy::Variadic(Box::new(param_normalized(*inner))),
        LuaTy::FunctionSig { params, returns: rets } => LuaTy::FunctionSig {
            params: param_normalized_seq(params),
            returns: param_normalized_seq(rets),
        },
        other => other,
    }
}

pub open spec fn param_normalized_seq(s: Seq<LuaTy>) -> Seq<LuaTy>
    decreases s, 0int,
{
    Seq::new(
        s.len(),
        |i: int|
            if 0 <= i < s.len() {
                param_normalized(s[i])
            } else {
                LuaTy::Nil
            },
    )
}

fn param_normalized_exec(t: &LuaType) -> (r: LuaType)
    ensures
        r@ == param_normalized(t@),
    decreases t,
{
    match t {
        LuaType::Array(inner) => LuaType::Array(Box::new(param_normalized_exec(inner))),
        LuaType::Optional(inner) => LuaType::Optional(Box::new(param_normalized_exec(inner))),
        LuaType::TypedTable(k, v) => LuaType::TypedTable(
            Box::new(param_normalized_exec(k)),
            Box::new(param_normalized_exec(v)),
        ),
        LuaType::Union(items) => make_union(param_normalized_vec(items)),
        LuaType::Variadic(inner) => LuaType::Variadic(Box::new(param_normalized_exec(inner))),
        LuaType::FunctionSig { params, returns: rets } => LuaType::FunctionSig {
            params: param_normalized_vec(params),
            returns: param_normalized_vec(rets),
        },
        _ => ty_clone(t),
    }
}

fn param_normalized_vec(v: &Vec<LuaType>) -> (r: Vec<LuaType>)
    ensures
        tys_view(r) == param_normalized_seq(tys_view(*v)),
    decreases v,
{
    let mut out: Vec<LuaType> = Vec::new();
    let mut i: usize = 0;
    while i < v.len()
        invariant
            i <= v.len(),
            out.len() == i,
            forall|j: int| 0 <= j < i ==> out[j]@ == param_normalized(v[j]@),
        decreases v.len() - i,
    {
        out.push(param_normalized_exec(&v[i]));
        i += 1;
    }
    assert(tys_view(out) =~= param_normalized_seq(tys_view(*v)));
    out
}

/// Rebuilds every union inside a parameter type (see [`param_normalized`]).
pub fn normalize_param_lua_type(ty: LuaType) -> (r: LuaType)
    ensures
        r@ == param_normalized(ty@),
{
    param_normalized_exec(&ty)
}

/// An explicit parameter annotation with reference aliases renamed.
pub fn normalize_explicit_param_type(ty: LuaType) -> (r: LuaType)
    ensures
        r@ == ref_aliases_renamed(ty@),
{
    let mut t = ty;
    normalize_userdata_ref_alias_type(&mut t);
    t
}

// ── types read from snippets ─────────────────────────────────────────

/// What a value decoded like JSON may be: `nil`, a boolean, a number, a
/// string or a table.
pub open spec fn json_like() -> LuaTy {
    union_of(seq![LuaTy::Nil, LuaTy::Boolean, LuaTy::Number, LuaTy::String, LuaTy::Table])
}

pub fn json_like_lua_type() -> (r: LuaType)
    ensures
        r@ == json_like(),
{
    let v = vec![LuaType::Nil, LuaType::Boolean, LuaType::Number, LuaType::String, LuaType::Table];
    assert(tys_view(v) =~= seq![
        LuaTy::Nil,
        LuaTy::Boolean,
        LuaTy::Number,
        LuaTy::String,
        LuaTy::Table,
    ]);
    make_union(v)
}

/// The type of each `Value::<variant>` that `s` mentions, in a fixed order.
pub open spec fn value_needle_tys(s: Seq<char>) -> Seq<LuaTy> {
    (if contains(s, "Value::Nil"@) {
        seq![LuaTy::Nil]
    } else {
        Seq::empty()
    }) + (if contains(s, "Value::Boolean"@) {
        seq![LuaTy::Boolean]
    } else {
        Seq::empty()
    }) + (if contains(s, "Value::Integer"@) {
        seq![LuaTy::Integer]
    } else {
        Seq::empty()
    }) + (if contains(s, "Value::Number"@) {
        seq![LuaTy::Number]
    } else {
        Seq::empty()
    }) + (if contains(s, "Value::String"@) {
        seq![LuaTy::String]
    } else {
        Seq::empty()
    }) + (if contains(s, "Value::Table"@) {
        seq![LuaTy::Table]
    } else {
        Seq::empty()
    }) + (if contains(s, "Value::Function"@) {
        seq![LuaTy::Function]
    } else {
        Seq::empty()
    }) + (if contains(s, "Value::Thread"@) {
        seq![LuaTy::Thread]
    } else {
        Seq::empty()
    })
}

pub open spec fn extracted_ty_fn() -> spec_fn(Seq<char>) -> LuaTy {
    |n: Seq<char>| extracted_ty(n)
}

/// The types named inside `marker...>` in `s`.
pub open spec fn marker_tys(s: Seq<char>, marker: Seq<char>) -> Seq<LuaTy> {
    generic_names(s, marker).map_values(extracted_ty_fn())
}

/// Whether `s` converts a value in a way that can give any JSON-like value.
pub open spec fn decodes_value(s: Seq<char>) -> bool {
    contains(s, "value_to_data("@) || contains(s, "from_value("@) || contains(s, "::from_lua("@)
        || contains(s, " from_lua("@)
}

/// The types a value converter snippet can produce: the `Value::<variant>`
/// types it mentions, then the types named by `TypeId::of::<`, `take::<`,
/// `borrow::<`, `borrow_mut::<`, `try_borrow::<` and `try_borrow_mut::<`;
/// where that finds nothing and the snippet decodes a value, what a
/// JSON-like value may be.
pub open spec fn converter_tys(s: Seq<char>) -> Seq<LuaTy> {
    let found = value_needle_tys(s) + marker_tys(s, "TypeId::of::<"@) + marker_tys(s, "take::<"@)
        + marker_tys(s, "borrow::<"@) + marker_tys(s, "borrow_mut::<"@) + marker_tys(
        s,
        "try_borrow::<"@,
    ) + marker_tys(s, "try_borrow_mut::<"@);
    if found.len() == 0 && decodes_value(s) {
        match json_like() {
            LuaTy::Union(items) => items,
            t => seq![t],
        }
    } else {
        found
    }
}

fn push_if_mentioned(tys: &mut Vec<LuaType>, snippet: &str, needle: &str, ty: LuaType)
    ensures
        tys_view(*final(tys)) == tys_view(*old(tys)) + (if contains(snippet@, needle@) {
            seq![ty@]
        } else {
            Seq::empty()
        }),
{
    if contains_exec(snippet, needle) {
        let ghost before = tys_view(*tys);
        tys.push(ty);
        assert(tys_view(*tys) =~= before + seq![ty@]);
    } else {
        assert(tys_view(*tys) =~= tys_view(*tys) + Seq::<LuaTy>::empty());
    }
}

fn push_marker_tys(tys: &mut Vec<LuaType>, snippet: &str, marker: &str)
    ensures
        tys_view(*final(tys)) == tys_view(*old(tys)) + marker_tys(snippet@, marker@),
{
    let names = extract_all_generic_type_names(snippet, marker);
    let ghost base = tys_view(*tys);
    let ghost all = marker_tys(snippet@, marker@);
    let mut i: usize = 0;
    while i < names.len()
        invariant
            base == tys_view(*old(tys)),
            all == marker_tys(snippet@, marker@),
            all == crate::driver::texts(names@).map_values(extracted_ty_fn()),
            all.len() == names.len(),
            i <= names.len(),
            tys_view(*tys) == base + all.take(i as int),
        decreases names.len() - i,
    {
        let t = lua_type_from_extracted_name(names[i].as_str());
        let ghost before = tys_view(*tys);
        tys.push(t);
        assert(all[i as int] == extracted_ty(names[i as int]@));
        assert(tys_view(*tys) =~= before.push(t@));
        assert(all.take(i + 1) =~= all.take(i as int).push(all[i as int]));
        assert(tys_view(*tys) =~= base + all.take(i + 1));
        i += 1;
    }
    assert(all.take(names.len() as int) =~= all);
}

/// The types a value converter snippet can produce (see
/// [`converter_tys`]).
pub fn infer_value_converter_types_from_snippet(snippet: &str) -> (r: Vec<LuaType>)
    ensures
        tys_view(r) == converter_tys(snippet@),
{
    let mut tys: Vec<LuaType> = Vec::new();
    assert(tys_view(tys) =~= Seq::<LuaTy>::empty());
    push_if_mentioned(&mut tys, snippet, "Value::Nil", LuaType::Nil);
    push_if_mentioned(&mut tys, snippet, "Value::Boolean", LuaType::Boolean);
    push_if_mentioned(&mut tys, snippet, "Value::Integer", LuaType::Integer);
    push_if_mentioned(&mut tys, snippet, "Value::Number", LuaType::Number);
    push_if_mentioned(&mut tys, snippet, "Value::String", LuaType::String);
    push_if_mentioned(&mut tys, snippet, "Value::Table", LuaType::Table);
    push_if_mentioned(&mut tys, snippet, "Value::Function", LuaType::Function);
    push_if_mentioned(&mut tys, snippet, "Value::Thread", LuaType::Thread);
    assert(tys_view(tys) =~= value_needle_tys(snippet@));
    push_marker_tys(&mut tys, snippet, "TypeId::of::<");
    push_marker_tys(&mut tys, snippet, "take::<");
    push_marker_tys(&mut tys, snippet, "borrow::<");
    push_marker_tys(&mut tys, snippet, "borrow_mut::<");
    push_marker_tys(&mut tys, snippet, "try_borrow::<");
    push_marker_tys(&mut tys, snippet, "try_borrow_mut::<");
    if tys.len() == 0 && (contains_exec(snippet, "value_to_data(") || contains_exec(
        snippet,
        "from_value(",
    ) || contains_exec(snippet, "::from_lua(") || contains_exec(snippet, " from_lua(")) {
        let j = json_like_lua_type();
        match j {
            LuaType::Union(items) => {
                return items;
            },
            t => {
                let v = vec![t];
                assert(tys_view(v) =~= seq![j@]);
                return v;
            },
        }
    }
    tys
}

/// Reads the parameter types that an explicit annotation gives: none for
/// an empty or unit annotation or, for one parameter, for `AnyUserData`;
/// for one parameter its type; for several, the parts of a tuple type of
/// that many parts.
pub open spec fn explicit_types(snippet: Seq<char>, expected: nat) -> Option<Seq<LuaTy>> {
    let s = trim(snippet);
    if s.len() == 0 || s == "()"@ {
        None
    } else if expected == 1 && is_any_userdata_text(s) {
        None
    } else if expected == 1 {
        Some(seq![ref_aliases_renamed(extracted_ty(s))])
    } else if s.len() >= 2 && s[0] == '(' && s.last() == ')' {
        let parts = split_top_level(s.subrange(1, s.len() - 1), ',');
        if parts.len() == expected {
            Some(
                Seq::new(
                    parts.len(),
                    |i: int| ref_aliases_renamed(extracted_ty(parts[i])),
                ),
            )
        } else {
            None
        }
    } else {
        None
    }
}

pub open spec fn opt_tys_view(o: Option<Vec<LuaType>>) -> Option<Seq<LuaTy>> {
    match o {
        Some(v) => Some(tys_view(v)),
        None => None,
    }
}

/// The parameter types that the explicit annotation `snippet` gives for
/// `expected_len` parameters (see [`explicit_types`]).
pub fn explicit_param_types_from_type_snippet(snippet: &str, expected_len: usize) -> (r: Option<
    Vec<LuaType>,
>)
    ensures
        opt_tys_view(r) == explicit_types(snippet@, expected_len as nat),
{
    let s = trim_exec(snippet);
    let n = s.unicode_len();
    if n == 0 || str_eq(s, "()") {
        return None;
    }
    if expected_len == 1 && is_any_userdata_type_snippet(s) {
        return None;
    }
    if expected_len == 1 {
        let t = normalize_explicit_param_type(lua_type_from_extracted_name(s));
        let v = vec![t];
        assert(tys_view(v) =~= seq![t@]);
        return Some(v);
    }
    if n < 2 || s.get_char(0) != '(' || s.get_char(n - 1) != ')' {
        return None;
    }
    let inner = s.substring_char(1, n - 1);
    let parts = split_top_level_exec(inner, ',');
    if parts.len() != expected_len {
        return None;
    }
    let ghost ps = slices_view(parts@);
    let mut out: Vec<LuaType> = Vec::new();
    let mut i: usize = 0;
    while i < parts.len()
        invariant
            ps == slices_view(parts@),
            i <= parts.len(),
            out.len() == i,
            forall|j: int| 0 <= j < i ==> out[j]@ == ref_aliases_renamed(extracted_ty(ps[j])),
        decreases parts.len() - i,
    {
        let t = normalize_explicit_param_type(lua_type_from_extracted_name(parts[i]));
        out.push(t);
        i += 1;
    }
    assert(tys_view(out) =~= Seq::new(
        ps.len(),
        |i: int| ref_aliases_renamed(extracted_ty(ps[i])),
    ));
    Some(out)
}

/// The parameter types that the annotation of the `params_idx`-th closure
/// parameter gives, read as in [`explicit_types`].
pub open spec fn closure_explicit_types(cs: Seq<char>, idx: nat, expected: nat) -> Option<
    Seq<LuaTy>,
> {
    match closure_params_text(cs) {
        None => None,
        Some(params) => {
            let parts = split_top_level(params, ',');
            if idx < parts.len() {
                match param_type_annotation(trim(parts[idx as int])) {
                    Some(ty) => explicit_types(ty, expected),
                    None => None,
                }
            } else {
                None
            }
        },
    }
}

pub fn explicit_param_types_from_closure_snippet(
    closure_snippet: &str,
    params_idx: usize,
    expected_len: usize,
) -> (r: Option<Vec<LuaType>>)
    ensures
        opt_tys_view(r) == closure_explicit_types(
            closure_snippet@,
            params_idx as nat,
            expected_len as nat,
        ),
{
    let params = match closure_params_snippet(closure_snippet) {
        Some(p) => p,
        None => return None,
    };
    let parts = split_top_level_exec(params, ',');
    if params_idx >= parts.len() {
        return None;
    }
    let param = trim_exec(parts[params_idx]);
    let ty = match top_level_param_type_annotation(param) {
        Some(t) => t,
        None => return None,
    };
    explicit_param_types_from_type_snippet(ty, expected_len)
}

// ── metamethods ───────────────────────────────────────────────────────

/// The Lua name of an mlua `MetaMethod` variant: its metamethod name, or
/// `__` and the snake-case variant name for a variant not known here.
pub open spec fn meta_name(v: Seq<char>) -> Seq<char> {
    if v == "Add"@ {
        "__add"@
    } else if v == "Sub"@ {
        "__sub"@
    } else if v == "Mul"@ {
        "__mul"@
    } else if v == "Div"@ {
        "__div"@
    } else if v == "Mod"@ {
        "__mod"@
    } else if v == "Pow"@ {
        "__pow"@
    } else if v == "Unm"@ {
        "__unm"@
    } else if v == "IDiv"@ {
        "__idiv"@
    } else if v == "BAnd"@ {
        "__band"@
    } else if v == "BOr"@ {
        "__bor"@
    } else if v == "BXor"@ {
        "__bxor"@
    } else if v == "BNot"@ {
        "__bnot"@
    } else if v == "Shl"@ {
        "__shl"@
    } else if v == "Shr"@ {
        "__shr"@
    } else if v == "Concat"@ {
        "__concat"@
    } else if v == "Len"@ {
        "__len"@
    } else if v == "Eq"@ {
        "__eq"@
    } else if v == "Lt"@ {
        "__lt"@
    } else if v == "Le"@ {
        "__le"@
    } else if v == "Index"@ {
        "__index"@
    } else if v == "NewIndex"@ {
        "__newindex"@
    } else if v == "Call"@ {
        "__call"@
    } else if v == "ToString"@ {
        "__tostring"@
    } else if v == "Pairs"@ {
        "__pairs"@
    } else if v == "IPairs"@ {
        "__ipairs"@
    } else if v == "Gt"@ {
        "__gt"@
    } else if v == "Ge"@ {
        "__ge"@
    } else if v == "Iter"@ {
        "__iter"@
    } else if v == "Close"@ {
        "__close"@
    } else {
        "__"@ + snake_case(v)
    }
}

pub fn meta_method_lua_name(variant: &str) -> (r: String)
    ensures
        r@ == meta_name(variant@),
{
    if str_eq(variant, "Add") {
        return owned("__add");
    }
    if str_eq(variant, "Sub") {
        return owned("__sub");
    }
    if str_eq(variant, "Mul") {
        return owned("__mul");
    }
    if str_eq(variant, "Div") {
        return owned("__div");
    }
    if str_eq(variant, "Mod") {
        return owned("__mod");
    }
    if str_eq(variant, "Pow") {
        return owned("__pow");
    }
    if str_eq(variant, "Unm") {
        return owned("__unm");
    }
    if str_eq(variant, "IDiv") {
        return owned("__idiv");
    }
    if str_eq(variant, "BAnd") {
        return owned("__band");
    }
    if str_eq(variant, "BOr") {
        return owned("__bor");
    }
    if str_eq(variant, "BXor") {
        return owned("__bxor");
    }
    if str_eq(variant, "BNot") {
        return owned("__bnot");
    }
    if str_eq(variant, "Shl") {
        return owned("__shl");
    }
    if str_eq(variant, "Shr") {
        return owned("__shr");
    }
    if str_eq(variant, "Concat") {
        return owned("__concat");
    }
    if str_eq(variant, "Len") {
        return owned("__len");
    }
    if str_eq(variant, "Eq") {
        return owned("__eq");
    }
    if str_eq(variant, "Lt") {
        return owned("__lt");
    }
    if str_eq(variant, "Le") {
        return owned("__le");
    }
    if str_eq(variant, "Index") {
        return owned("__index");
    }
    if str_eq(variant, "NewIndex") {
        return owned("__newindex");
    }
    if str_eq(variant, "Call") {
        return owned("__call");
    }
    if str_eq(variant, "ToString") {
        return owned("__tostring");
    }
    if str_eq(variant, "Pairs") {
        return owned("__pairs");
    }
    if str_eq(variant, "IPairs") {
        return owned("__ipairs");
    }
    if str_eq(variant, "Gt") {
        return owned("__gt");
    }
    if str_eq(variant, "Ge") {
        return owned("__ge");
    }
    if str_eq(variant, "Iter") {
        return owned("__iter");
    }
    if str_eq(variant, "Close") {
        return owned("__close");
    }
    let mut out = owned("__");
    let snake = heck_snake_case(variant);
    out.append(snake.as_str());
    out
}

// ── iterator classes ──────────────────────────────────────────────────

/// A class name with generic arguments, `Base<A, B>`: the trimmed base and
/// the arguments read as types.
pub open spec fn class_args(name: Seq<char>) -> Option<(Seq<char>, Seq<LuaTy>)> {
    match find_char(name, '<') {
        None => None,
        Some(start) => if name.len() > 0 && name.last() == '>' {
            let parts = split_top_level(name.subrange(start + 1, name.len() - 1), ',');
            Some(
                (
                    trim(name.subrange(0, start)),
                    Seq::new(parts.len(), |i: int| extracted_ty(parts[i])),
                ),
            )
        } else {
            None
        },
    }
}

/// Splits a class name with generic arguments into its base and its
/// arguments read as types (see [`class_args`]).
pub fn parse_embedded_class_args(name: &str) -> (r: Option<(&str, Vec<LuaType>)>)
    ensures
        match r {
            Some((base, args)) => class_args(name@) == Some((base@, tys_view(args))),
            None => class_args(name@) is None,
        },
{
    let start = match find_char_exec(name, '<') {
        Some(i) => i,
        None => return None,
    };
    proof {
        lemma_find_char_sound(name@, '<', 0);
    }
    let n = name.unicode_len();
    if name.get_char(n - 1) != '>' {
        return None;
    }
    let inner = name.substring_char(start + 1, n - 1);
    let parts = split_top_level_exec(inner, ',');
    let ghost ps = slices_view(parts@);
    let mut args: Vec<LuaType> = Vec::new();
    let mut i: usize = 0;
    while i < parts.len()
        invariant
            ps == slices_view(parts@),
            i <= parts.len(),
            args.len() == i,
            forall|j: int| 0 <= j < i ==> args[j]@ == extracted_ty(ps[j]),
        decreases parts.len() - i,
    {
        args.push(lua_type_from_extracted_name(parts[i]));
        i += 1;
    }
    assert(tys_view(args) =~= Seq::new(ps.len(), |i: int| extracted_ty(ps[i])));
    let base = trim_exec(name.substring_char(0, start));
    Some((base, args))
}

/// The value type that iterating the state `state` of a `__pairs`
/// metamethod gives: `any` for a bare `Iter`, the second argument of
/// `Iter<K, V>`.
pub open spec fn pairs_value(state: LuaTy) -> Option<LuaTy> {
    match state {
        LuaTy::Class(name) => if name == "Iter"@ {
            Some(LuaTy::Any)
        } else {
            match class_args(name) {
                Some((base, args)) => if base == "Iter"@ && args.len() >= 2 {
                    Some(args[1])
                } else {
                    None
                },
                None => None,
            }
        },
        _ => None,
    }
}

pub fn infer_pairs_value_type(state: &LuaType) -> (r: Option<LuaType>)
    ensures
        opt_ty_view(r) == pairs_value(state@),
{
    let name = match state {
        LuaType::Class(name) => name.as_str(),
        _ => return None,
    };
    if str_eq(name, "Iter") {
        return Some(LuaType::Any);
    }
    match parse_embedded_class_args(name) {
        Some((base, args)) => {
            if str_eq(base, "Iter") && args.len() >= 2 {
                Some(ty_clone(&args[1]))
            } else {
                None
            }
        },
        None => None,
    }
}

pub open spec fn or_any(o: Option<LuaTy>) -> LuaTy {
    match o {
        Some(t) => t,
        None => LuaTy::Any,
    }
}

/// The returns of a `__pairs` metamethod that forwards to an iterator
/// state: the step function `fun(state): integer?, V?`, the state, and
/// `nil`.
pub open spec fn pairs_forward_returns_ok(state: LuaTy, r: Seq<LuaReturn>) -> bool {
    &&& r.len() == 3
    &&& r[0].ty@ == LuaTy::FunctionSig {
        params: seq![state],
        returns: seq![
            LuaTy::Optional(Box::new(LuaTy::Integer)),
            LuaTy::Optional(Box::new(or_any(pairs_value(state)))),
        ],
    }
    &&& r[1].ty@ == state
    &&& r[2].ty@ == LuaTy::Nil
    &&& r[0].name is None && r[1].name is None && r[2].name is None
}

pub fn infer_pairs_forward_returns(state: &LuaType) -> (r: Vec<LuaReturn>)
    ensures
        pairs_forward_returns_ok(state@, r@),
{
    let value = match infer_pairs_value_type(state) {
        Some(v) => v,
        None => {
            let a = LuaType::Any;
            assert(a@ == LuaTy::Any);
            a
        },
    };
    assert(value@ == or_any(pairs_value(state@)));
    let int_ty = LuaType::Integer;
    assert(int_ty@ == LuaTy::Integer);
    let opt_int = LuaType::Optional(Box::new(int_ty));
    let opt_value = LuaType::Optional(Box::new(value));
    let params = vec![ty_clone(state)];
    let rets = vec![opt_int, opt_value];
    assert(tys_view(params) =~= seq![state@]);
    assert(tys_view(rets) =~= seq![
        LuaTy::Optional(Box::new(LuaTy::Integer)),
        LuaTy::Optional(Box::new(or_any(pairs_value(state@)))),
    ]);
    let step = LuaType::FunctionSig { params, returns: rets };
    let nil = LuaType::Nil;
    assert(nil@ == LuaTy::Nil);
    vec![
        LuaReturn { ty: step, name: None },
        LuaReturn { ty: ty_clone(state), name: None },
        LuaReturn { ty: nil, name: None },
    ]
}

// ── merging the returns of several branches ──────────────────────────

pub open spec fn name_view(o: Option<String>) -> Option<Seq<char>> {
    match o {
        Some(s) => Some(s@),
        None => None,
    }
}

/// The most returns that one of the branches has.
pub open spec fn max_branch_len(bs: Seq<Vec<LuaReturn>>) -> nat
    decreases bs.len(),
{
    if bs.len() == 0 {
        0
    } else {
        nat_max(max_branch_len(bs.drop_last()), bs.last().len() as nat)
    }
}

/// The type of a branch's `idx`-th return, `nil` where it has none.
pub open spec fn branch_ty(b: Vec<LuaReturn>, idx: int) -> LuaTy {
    if 0 <= idx < b.len() {
        b[idx].ty@
    } else {
        LuaTy::Nil
    }
}

pub open spec fn branch_name(b: Vec<LuaReturn>, idx: int) -> Option<Seq<char>> {
    if 0 <= idx < b.len() {
        name_view(b[idx].name)
    } else {
        None
    }
}

pub open spec fn branch_tys_at(bs: Seq<Vec<LuaReturn>>, idx: int) -> Seq<LuaTy> {
    Seq::new(bs.len(), |j: int| branch_ty(bs[j], idx))
}

pub open spec fn branch_names_at(bs: Seq<Vec<LuaReturn>>, idx: int) -> Seq<Option<Seq<char>>> {
    Seq::new(bs.len(), |j: int| branch_name(bs[j], idx))
}

/// The first name given and whether every later branch gives that same
/// name.
pub open spec fn names_agreed(ns: Seq<Option<Seq<char>>>) -> (Option<Seq<char>>, bool)
    decreases ns.len(),
{
    if ns.len() == 0 {
        (None, true)
    } else {
        let (n, same) = names_agreed(ns.drop_last());
        let b = ns.last();
        if n is None {
            (b, same)
        } else if n != b {
            (n, false)
        } else {
            (n, same)
        }
    }
}

/// The name of a merged return: the name the branches agree on, if any.
pub open spec fn merged_name(ns: Seq<Option<Seq<char>>>) -> Option<Seq<char>> {
    let (n, same) = names_agreed(ns);
    if same {
        n
    } else {
        None
    }
}

/// The merged returns of several branches: as many as the longest branch
/// has, each the union of the branches' types at that position (`nil`
/// where a branch has fewer), named where the branches agree.
pub open spec fn merged_branches_ok(bs: Seq<Vec<LuaReturn>>, v: Seq<LuaReturn>) -> bool {
    &&& v.len() == max_branch_len(bs)
    &&& forall|idx: int|
        0 <= idx < v.len() ==> (#[trigger] v[idx]).ty@ == union_of(branch_tys_at(bs, idx))
            && name_view(v[idx].name) == merged_name(branch_names_at(bs, idx))
}

fn opt_string_clone(o: &Option<String>) -> (r: Option<String>)
    ensures
        name_view(r) == name_view(*o),
{
    match o {
        Some(s) => Some(owned(s.as_str())),
        None => None,
    }
}

fn opt_string_eq(a: &Option<String>, b: &Option<String>) -> (r: bool)
    ensures
        r == (name_view(*a) == name_view(*b)),
{
    match (a, b) {
        (Some(x), Some(y)) => str_eq(x.as_str(), y.as_str()),
        (None, None) => true,
        _ => false,
    }
}

fn merge_at(branches: &Vec<Vec<LuaReturn>>, idx: usize) -> (r: LuaReturn)
    ensures
        r.ty@ == union_of(branch_tys_at(branches@, idx as int)),
        name_view(r.name) == merged_name(branch_names_at(branches@, idx as int)),
{
    let ghost bs = branches@;
    let ghost ts = branch_tys_at(bs, idx as int);
    let ghost ns = branch_names_at(bs, idx as int);
    let mut tys: Vec<LuaType> = Vec::new();
    let mut name: Option<String> = None;
    let mut same = true;
    let mut j: usize = 0;
    while j < branches.len()
        invariant
            bs == branches@,
            ts == branch_tys_at(bs, idx as int),
            ns == branch_names_at(bs, idx as int),
            j <= branches.len(),
            tys_view(tys) == ts.take(j as int),
            (name_view(name), same) == names_agreed(ns.take(j as int)),
        decreases branches.len() - j,
    {
        let branch = &branches[j];
        let ghost before = tys_view(tys);
        assert(ts[j as int] == branch_ty(bs[j as int], idx as int));
        let item_name: Option<String> = if idx < branch.len() {
            let t = ty_clone(&branch[idx].ty);
            tys.push(t);
            assert(tys_view(tys) =~= before.push(ts[j as int]));
            opt_string_clone(&branch[idx].name)
        } else {
            let nil = LuaType::Nil;
            assert(nil@ == LuaTy::Nil);
            tys.push(nil);
            assert(tys_view(tys) =~= before.push(ts[j as int]));
            None
        };
        assert(ns.take(j + 1).drop_last() =~= ns.take(j as int));
        assert(ns[j as int] == name_view(item_name));
        if name.is_none() {
            name = item_name;
        } else if !opt_string_eq(&name, &item_name) {
            same = false;
        }
        assert(tys_view(tys) =~= ts.take(j + 1));
        j += 1;
    }
    assert(ts.take(branches.len() as int) =~= ts);
    assert(ns.take(branches.len() as int) =~= ns);
    LuaReturn { ty: make_union(tys), name: if same { name } else { None } }
}

fn branch_max_len(branches: &Vec<Vec<LuaReturn>>) -> (r: usize)
    ensures
        r == max_branch_len(branches@),
{
    let mut m: usize = 0;
    let mut j: usize = 0;
    while j < branches.len()
        invariant
            j <= branches.len(),
            m == max_branch_len(branches@.take(j as int)),
        decreases branches.len() - j,
    {
        assert(branches@.take(j + 1).drop_last() =~= branches@.take(j as int));
        if branches[j].len() > m {
            m = branches[j].len();
        }
        j += 1;
    }
    assert(branches@.take(branches.len() as int) =~= branches@);
    m
}

/// Merges the returns of several branches (see [`merged_branches_ok`]);
/// `None` when there are no branches.
pub fn merge_return_branches(branches: Vec<Vec<LuaReturn>>) -> (r: Option<Vec<LuaReturn>>)
    ensures
        match r {
            None => branches.len() == 0,
            Some(v) => branches.len() > 0 && merged_branches_ok(branches@, v@),
        },
{
    if branches.len() == 0 {
        return None;
    }
    let max_len = branch_max_len(&branches);
    let mut merged: Vec<LuaReturn> = Vec::new();
    let mut idx: usize = 0;
    while idx < max_len
        invariant
            max_len == max_branch_len(branches@),
            idx <= max_len,
            merged.len() == idx,
            forall|k: int|
                0 <= k < idx ==> (#[trigger] merged@[k]).ty@ == union_of(
                    branch_tys_at(branches@, k),
                ) && name_view(merged@[k].name) == merged_name(branch_names_at(branches@, k)),
        decreases max_len - idx,
    {
        merged.push(merge_at(&branches, idx));
        idx += 1;
    }
    Some(merged)
}

} // verus!
