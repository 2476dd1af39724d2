//! How a Lua type is written in LuaCATS annotations, and how class names
//! that embed annotation text (`"UserDataRef | FileRef | integer"`) are
//! read back into types.
use vstd::prelude::*;

use crate::text::{
    lemma_split_parts, lemma_trim_len, owned, slices_view, split_top_level,
    split_top_level_exec, starts_with_exec, str_eq, trim, trim_exec,
};
use crate::union::{make_union, union_of, expand_member, flatten_members, dedup, keep_members,
    any_member, normalize_refs, rename_ref, rename_fn, pred_not_any, pred_not_nil,
    pred_not_generic_ref};
use crate::{strs_view, tys_view, LuaTy, LuaType};

verus! {

broadcast use vstd::std_specs::vec::group_vec_axioms;

// ── class-name size, the measure under which display terminates ──────

pub open spec fn nat_max(a: nat, b: nat) -> nat {
    if a >= b {
        a
    } else {
        b
    }
}

/// The length of the longest class name inside `t`.
pub open spec fn cmax(t: LuaTy) -> nat
    decreases t, 1int,
{
    match t {
        LuaTy::Class(name) => name.len(),
        LuaTy::Array(inner) => cmax(*inner),
        LuaTy::Optional(inner) => cmax(*inner),
        LuaTy::Variadic(inner) => cmax(*inner),
        LuaTy::TypedTable(k, v) => nat_max(cmax(*k), cmax(*v)),
        LuaTy::Union(items) => cmax_seq(items),
        LuaTy::FunctionSig { params, returns: rets } => nat_max(cmax_seq(params), cmax_seq(rets)),
        _ => 0,
    }
}

pub open spec fn cmax_seq(s: Seq<LuaTy>) -> nat
    decreases s, 0int,
{
    if s.len() == 0 {
        0
    } else {
        nat_max(cmax_seq(s.drop_last()), cmax(s.last()))
    }
}

pub open spec fn all_le(s: Seq<LuaTy>, k: nat) -> bool {
    forall|i: int| 0 <= i < s.len() ==> cmax(#[trigger] s[i]) <= k
}

pub proof fn lemma_cmax_seq_elems(s: Seq<LuaTy>)
    ensures
        all_le(s, cmax_seq(s)),
    decreases s.len(),
{
    if s.len() > 0 {
        lemma_cmax_seq_elems(s.drop_last());
        assert forall|i: int| 0 <= i < s.len() implies cmax(#[trigger] s[i]) <= cmax_seq(s) by {
            if i < s.len() - 1 {
                assert(s[i] == s.drop_last()[i]);
            }
        }
    }
}

pub proof fn lemma_cmax_seq_le(s: Seq<LuaTy>, k: nat)
    requires
        all_le(s, k),
    ensures
        cmax_seq(s) <= k,
    decreases s.len(),
{
    if s.len() > 0 {
        assert forall|i: int| 0 <= i < s.drop_last().len() implies cmax(
            #[trigger] s.drop_last()[i],
        ) <= k by {
            assert(s.drop_last()[i] == s[i]);
        }
        lemma_cmax_seq_le(s.drop_last(), k);
    }
}

proof fn lemma_flatten_le(xs: Seq<LuaTy>, k: nat)
    requires
        all_le(xs, k),
    ensures
        all_le(flatten_members(xs), k),
    decreases xs.len(),
{
    if xs.len() > 0 {
        assert forall|i: int| 0 <= i < xs.drop_last().len() implies cmax(
            #[trigger] xs.drop_last()[i],
        ) <= k by {
            assert(xs.drop_last()[i] == xs[i]);
        }
        lemma_flatten_le(xs.drop_last(), k);
        let t = xs.last();
        let e = expand_member(t);
        assert(cmax(t) <= k);
        if let LuaTy::Union(inner) = t {
            lemma_cmax_seq_elems(inner);
        }
        assert(all_le(e, k));
        let a = flatten_members(xs.drop_last());
        assert forall|i: int| 0 <= i < (a + e).len() implies cmax(#[trigger] (a + e)[i]) <= k by {
            if i < a.len() {
                assert((a + e)[i] == a[i]);
            } else {
                assert((a + e)[i] == e[i - a.len()]);
            }
        }
    }
}

proof fn lemma_dedup_le(s: Seq<LuaTy>, k: nat)
    requires
        all_le(s, k),
    ensures
        all_le(dedup(s), k),
    decreases s.len(),
{
    if s.len() > 0 {
        assert forall|i: int| 0 <= i < s.drop_last().len() implies cmax(
            #[trigger] s.drop_last()[i],
        ) <= k by {
            assert(s.drop_last()[i] == s[i]);
        }
        lemma_dedup_le(s.drop_last(), k);
        let d = dedup(s.drop_last());
        if !d.contains(s.last()) {
            assert forall|i: int| 0 <= i < d.push(s.last()).len() implies cmax(
                #[trigger] d.push(s.last())[i],
            ) <= k by {
                if i < d.len() {
                    assert(d.push(s.last())[i] == d[i]);
                }
            }
        }
    }
}

proof fn lemma_keep_le(s: Seq<LuaTy>, p: spec_fn(LuaTy) -> bool, k: nat)
    requires
        all_le(s, k),
    ensures
        all_le(keep_members(s, p), k),
    decreases s.len(),
{
    if s.len() > 0 {
        assert forall|i: int| 0 <= i < s.drop_last().len() implies cmax(
            #[trigger] s.drop_last()[i],
        ) <= k by {
            assert(s.drop_last()[i] == s[i]);
        }
        lemma_keep_le(s.drop_last(), p, k);
        let d = keep_members(s.drop_last(), p);
        if p(s.last()) {
            assert forall|i: int| 0 <= i < d.push(s.last()).len() implies cmax(
                #[trigger] d.push(s.last())[i],
            ) <= k by {
                if i < d.len() {
                    assert(d.push(s.last())[i] == d[i]);
                }
            }
        }
    }
}

proof fn lemma_rename_le(t: LuaTy)
    ensures
        cmax(rename_ref(t)) <= cmax(t),
{
    reveal_strlit("RefMut");
    reveal_strlit("Ref");
    if let LuaTy::Class(name) = t {
        assert(crate::union::ref_alias_target(name).len() <= name.len());
    }
}

proof fn lemma_normalize_le(s: Seq<LuaTy>, k: nat)
    requires
        all_le(s, k),
    ensures
        all_le(normalize_refs(s), k),
{
    let m = s.map_values(rename_fn());
    assert forall|i: int| 0 <= i < m.len() implies cmax(#[trigger] m[i]) <= k by {
        assert(m[i] == rename_ref(s[i]));
        assert(cmax(s[i]) <= k);
        lemma_rename_le(s[i]);
    }
    lemma_dedup_le(m, k);
    lemma_keep_le(dedup(m), pred_not_generic_ref(), k);
}

/// No class name in a union is longer than the longest in its branches.
pub proof fn lemma_union_le(xs: Seq<LuaTy>, k: nat)
    requires
        all_le(xs, k),
    ensures
        cmax(union_of(xs)) <= k,
{
    lemma_flatten_le(xs, k);
    lemma_dedup_le(flatten_members(xs), k);
    let seen0 = normalize_refs(dedup(flatten_members(xs)));
    lemma_normalize_le(dedup(flatten_members(xs)), k);
    lemma_keep_le(seen0, pred_not_any(), k);
    let seen1 = if any_member(seen0, crate::union::pred_concrete()) {
        keep_members(seen0, pred_not_any())
    } else {
        seen0
    };
    assert(all_le(seen1, k));
    lemma_keep_le(seen1, pred_not_nil(), k);
    let seen2 = if any_member(seen1, crate::union::pred_nil()) {
        keep_members(seen1, pred_not_nil())
    } else {
        seen1
    };
    assert(all_le(seen2, k));
    let has_nil = any_member(seen1, crate::union::pred_nil());
    if seen2.len() > 1 {
        lemma_cmax_seq_le(seen2, k);
        assert(cmax(LuaTy::Union(seen2)) <= k);
        assert(union_of(xs) == (if has_nil {
            LuaTy::Optional(Box::new(LuaTy::Union(seen2)))
        } else {
            LuaTy::Union(seen2)
        }));
    } else if seen2.len() == 1 {
        assert(cmax(seen2[0]) <= k);
        assert(union_of(xs) == (if has_nil {
            LuaTy::Optional(Box::new(seen2[0]))
        } else {
            seen2[0]
        }));
    } else {
        assert(union_of(xs) == (if has_nil {
            LuaTy::Nil
        } else {
            LuaTy::Any
        }));
    }
}

// ── reading annotation text embedded in a class name ─────────────────

/// Depth of parentheses after the first `n` characters, `None` once a
/// closer has no opener.
pub open spec fn paren_depth(s: Seq<char>, n: nat) -> Option<nat>
    decreases n,
{
    if n == 0 || n > s.len() {
        Some(0)
    } else {
        match paren_depth(s, (n - 1) as nat) {
            None => None,
            Some(d) => if s[n - 1] == '(' {
                Some(d + 1)
            } else if s[n - 1] == ')' {
                if d == 0 {
                    None
                } else {
                    Some((d - 1) as nat)
                }
            } else {
                Some(d)
            },
        }
    }
}

/// The trimmed inside of `(...)` when the outer parentheses enclose the
/// whole text.
pub open spec fn strip_parens(t: Seq<char>) -> Option<Seq<char>> {
    if t.len() >= 2 && t[0] == '(' && t.last() == ')' {
        let inner = t.subrange(1, t.len() - 1);
        if paren_depth(inner, inner.len()) == Some(0nat) {
            Some(trim(inner))
        } else {
            None
        }
    } else {
        None
    }
}

/// A bare annotation word: a built-in type, else a class name.
pub open spec fn keyword_ty(t: Seq<char>) -> LuaTy {
    if t == "nil"@ {
        LuaTy::Nil
    } else if t == "boolean"@ {
        LuaTy::Boolean
    } else if t == "integer"@ {
        LuaTy::Integer
    } else if t == "number"@ {
        LuaTy::Number
    } else if t == "string"@ {
        LuaTy::String
    } else if t == "table"@ {
        LuaTy::Table
    } else if t == "function"@ {
        LuaTy::Function
    } else if t == "any"@ {
        LuaTy::Any
    } else if t == "thread"@ {
        LuaTy::Thread
    } else {
        LuaTy::Class(t)
    }
}

pub open spec fn is_table_form(t: Seq<char>) -> bool {
    t.len() >= 7 && t.subrange(0, 6) == "table<"@ && t.last() == '>'
}

/// The type that annotation text denotes, when it has a compound form:
/// parenthesised, a `|` union, `T?`, `T[]`, `T...` or `table<K, V>`.
pub open spec fn parse_embedded(text: Seq<char>) -> Option<LuaTy>
    decreases text.len(), 0int,
{
    let t = trim(text);
    proof {
        lemma_trim_len(text);
    }
    if t.len() == 0 {
        None
    } else if strip_parens(t) is Some {
        let inner = strip_parens(t)->0;
        proof {
            lemma_trim_len(t.subrange(1, t.len() - 1));
        }
        parse_embedded(inner)
    } else {
        let parts = split_top_level(t, '|');
        proof {
            lemma_split_parts(t, '|');
        }
        if parts.len() > 1 {
Some(union_of(Seq::new(parts.len(), |i: int| atom_at(parts, i))))
        } else if t.last() == '?' {
            proof {
                lemma_trim_len(t.subrange(0, t.len() - 1));
            }
            Some(LuaTy::Optional(Box::new(parse_atom(trim(t.subrange(0, t.len() - 1))))))
        } else if t.len() >= 2 && t[t.len() - 2] == '[' && t.last() == ']' {
            proof {
                lemma_trim_len(t.subrange(0, t.len() - 2));
            }
            Some(LuaTy::Array(Box::new(parse_atom(trim(t.subrange(0, t.len() - 2))))))
        } else if t.len() >= 3 && t[t.len() - 3] == '.' && t[t.len() - 2] == '.' && t.last()
            == '.' {
            proof {
                lemma_trim_len(t.subrange(0, t.len() - 3));
            }
            Some(LuaTy::Variadic(Box::new(parse_atom(trim(t.subrange(0, t.len() - 3))))))
        } else if is_table_form(t) {
            let inner = t.subrange(6, t.len() - 1);
            let ps = split_top_level(inner, ',');
            proof {
                lemma_split_parts(inner, ',');
            }
            if ps.len() == 2 {
                Some(
                    LuaTy::TypedTable(
                        Box::new(parse_atom(ps[0])),
                        Box::new(parse_atom(ps[1])),
                    ),
                )
            } else {
                None
            }
        } else {
            None
        }
    }
}

/// The type that annotation text denotes, reading bare words as built-in
/// types or class names.
pub open spec fn parse_atom(text: Seq<char>) -> LuaTy
    decreases text.len(), 1int,
{
    match parse_embedded(text) {
        Some(t) => t,
        None => keyword_ty(trim(text)),
    }
}

/// The type that the `i`-th part denotes.
pub open spec fn atom_at(parts: Seq<Seq<char>>, i: int) -> LuaTy
    decreases (if 0 <= i < parts.len() {
        parts[i].len()
    } else {
        0
    }), 2int,
{
    if 0 <= i < parts.len() {
        parse_atom(parts[i])
    } else {
        LuaTy::Nil
    }
}

pub proof fn lemma_parse_bound(text: Seq<char>)
    ensures
        parse_embedded(text) matches Some(p) ==> cmax(p) < text.len(),
    decreases text.len(), 0int,
{
    let t = trim(text);
    lemma_trim_len(text);
    if t.len() == 0 {
    } else if strip_parens(t) is Some {
        lemma_trim_len(t.subrange(1, t.len() - 1));
        lemma_parse_bound(strip_parens(t)->0);
        assert(parse_embedded(text) matches Some(p) ==> cmax(p) < text.len());
    } else {
        let parts = split_top_level(t, '|');
        lemma_split_parts(t, '|');
        if parts.len() > 1 {
            let k = (t.len() - 1) as nat;
            assert forall|xs: Seq<LuaTy>|
                xs.len() == parts.len() && (forall|i: int|
                    0 <= i < xs.len() ==> #[trigger] xs[i] == atom_at(parts, i)) implies cmax(
                #[trigger] union_of(xs),
            ) <= k by {
                assert forall|i: int| 0 <= i < xs.len() implies cmax(#[trigger] xs[i]) <= k by {
                    lemma_atom_bound(parts[i]);
                }
                lemma_union_le(xs, k);
            }
            assert(parse_embedded(text) matches Some(p) ==> cmax(p) < text.len());
        } else if t.last() == '?' {
            lemma_trim_len(t.subrange(0, t.len() - 1));
            lemma_atom_bound(trim(t.subrange(0, t.len() - 1)));
            assert(parse_embedded(text) matches Some(p) ==> cmax(p) < text.len());
        } else if t.len() >= 2 && t[t.len() - 2] == '[' && t.last() == ']' {
            lemma_trim_len(t.subrange(0, t.len() - 2));
            lemma_atom_bound(trim(t.subrange(0, t.len() - 2)));
            assert(parse_embedded(text) matches Some(p) ==> cmax(p) < text.len());
        } else if t.len() >= 3 && t[t.len() - 3] == '.' && t[t.len() - 2] == '.' && t.last()
            == '.' {
            lemma_trim_len(t.subrange(0, t.len() - 3));
            lemma_atom_bound(trim(t.subrange(0, t.len() - 3)));
            assert(parse_embedded(text) matches Some(p) ==> cmax(p) < text.len());
        } else if is_table_form(t) {
            let inner = t.subrange(6, t.len() - 1);
            let ps = split_top_level(inner, ',');
            lemma_split_parts(inner, ',');
            if ps.len() == 2 {
                lemma_atom_bound(ps[0]);
                lemma_atom_bound(ps[1]);
                assert(parse_embedded(text) matches Some(p) ==> cmax(p) < text.len());
            }
        }
    }
}

pub proof fn lemma_atom_bound(text: Seq<char>)
    ensures
        cmax(parse_atom(text)) <= text.len(),
    decreases text.len(), 1int,
{
    lemma_parse_bound(text);
    lemma_trim_len(text);
}

// ── writing types as annotation text ─────────────────────────────────

/// `parts` joined with `sep` between neighbours.
pub open spec fn join_texts(parts: Seq<Seq<char>>, sep: Seq<char>) -> Seq<char>
    decreases parts.len(),
{
    if parts.len() == 0 {
        Seq::empty()
    } else if parts.len() == 1 {
        parts[0]
    } else {
        join_texts(parts.drop_last(), sep) + sep + parts.last()
    }
}

pub open spec fn digit_text(d: nat) -> Seq<char> {
    "0123456789"@.subrange(d as int, d as int + 1)
}

/// The decimal digits of `n`.
pub open spec fn dec_text(n: nat) -> Seq<char>
    decreases n,
{
    if n < 10 {
        digit_text(n)
    } else {
        dec_text(n / 10) + digit_text(n % 10)
    }
}

pub open spec fn quoted(v: Seq<char>) -> Seq<char> {
    "\""@ + v + "\""@
}

/// The LuaCATS annotation text of a type.
#[verifier::opaque]
pub open spec fn ty_text(t: LuaTy) -> Seq<char>
    decreases cmax(t), t,
{
    match t {
        LuaTy::Nil => "nil"@,
        LuaTy::Boolean => "boolean"@,
        LuaTy::Integer => "integer"@,
        LuaTy::Number => "number"@,
        LuaTy::String => "string"@,
        LuaTy::Table => "table"@,
        LuaTy::Function => "function"@,
        LuaTy::Any => "any"@,
        LuaTy::Thread => "thread"@,
        LuaTy::Array(inner) => if (*inner is Optional) || (*inner is TypedTable) {
            "("@ + ty_text(*inner) + ")[]"@
        } else {
            ty_text(*inner) + "[]"@
        },
        LuaTy::Optional(inner) => if (*inner is Union) || (*inner is StringLiteral) || (
        *inner is FunctionSig) {
            "("@ + ty_text(*inner) + ")?"@
        } else {
            ty_text(*inner) + "?"@
        },
        LuaTy::TypedTable(k, v) => "table<"@ + ty_text(*k) + ", "@ + ty_text(*v) + ">"@,
        LuaTy::Class(name) => {
            proof {
                lemma_parse_bound(name);
            }
            match parse_embedded(name) {
                Some(p) => ty_text(p),
                None => name,
            }
        },
        LuaTy::StringLiteral(vs) => join_texts(vs.map_values(|v: Seq<char>| quoted(v)), " | "@),
        LuaTy::Union(items) => {
            proof {
                lemma_cmax_seq_elems(items);
            }
            join_texts(
                Seq::new(
                    items.len(),
                    |i: int|
                        if 0 <= i < items.len() {
                            ty_text(items[i])
                        } else {
                            Seq::empty()
                        },
                ),
                " | "@,
            )
        },
        LuaTy::Variadic(inner) => ty_text(*inner) + "..."@,
        LuaTy::FunctionSig { params, returns: rets } => {
            proof {
                lemma_cmax_seq_elems(params);
                lemma_cmax_seq_elems(rets);
            }
            "fun("@ + join_texts(
                Seq::new(
                    params.len(),
                    |i: int|
                        if 0 <= i < params.len() {
                            "p"@ + dec_text((i + 1) as nat) + ": "@ + ty_text(params[i])
                        } else {
                            Seq::empty()
                        },
                ),
                ", "@,
            ) + ")"@ + if rets.len() > 0 {
                ": "@ + join_texts(
                    Seq::new(
                        rets.len(),
                        |i: int|
                            if 0 <= i < rets.len() {
                                ty_text(rets[i])
                            } else {
                                Seq::empty()
                            },
                    ),
                    ", "@,
                )
            } else {
                Seq::empty()
            }
        },
    }
}

// ── executable ────────────────────────────────────────────────────────

/// The inside of `text` when it is wrapped in parentheses that enclose it
/// whole, trimmed.
pub fn strip_wrapping_parens(text: &str) -> (r: Option<&str>)
    ensures
        match r {
            Some(inner) => strip_parens(text@) == Some(inner@),
            None => strip_parens(text@) is None,
        },
{
    let n = text.unicode_len();
    if n < 2 || text.get_char(0) != '(' || text.get_char(n - 1) != ')' {
        return None;
    }
    let inner = text.substring_char(1, n - 1);
    let m = n - 2;
    let mut depth: usize = 0;
    let mut i: usize = 0;
    while i < m
        invariant
            m == inner@.len(),
            n == text@.len(),
            n >= 2,
            text@[0] == '(',
            text@[n - 1] == ')',
            inner@ == text@.subrange(1, n - 1),
            i <= m,
            depth <= i,
            paren_depth(inner@, i as nat) == Some(depth as nat),
        decreases m - i,
    {
        let ch = inner.get_char(i);
        if ch == '(' {
            depth = depth + 1;
        } else if ch == ')' {
            if depth == 0 {
                proof {
                    lemma_paren_depth_stuck(inner@, (i + 1) as nat, inner@.len());
                }
                return None;
            }
            depth = depth - 1;
        }
        i += 1;
    }
    if depth == 0 {
        Some(trim_exec(inner))
    } else {
        None
    }
}

proof fn lemma_paren_depth_stuck(s: Seq<char>, a: nat, b: nat)
    requires
        a <= b <= s.len(),
        paren_depth(s, a) is None,
    ensures
        paren_depth(s, b) is None,
    decreases b - a,
{
    if a < b {
        lemma_paren_depth_stuck(s, a, (b - 1) as nat);
    }
}

fn keyword_ty_exec(t: &str) -> (r: LuaType)
    ensures
        r@ == keyword_ty(t@),
{
    if str_eq(t, "nil") {
        LuaType::Nil
    } else if str_eq(t, "boolean") {
        LuaType::Boolean
    } else if str_eq(t, "integer") {
        LuaType::Integer
    } else if str_eq(t, "number") {
        LuaType::Number
    } else if str_eq(t, "string") {
        LuaType::String
    } else if str_eq(t, "table") {
        LuaType::Table
    } else if str_eq(t, "function") {
        LuaType::Function
    } else if str_eq(t, "any") {
        LuaType::Any
    } else if str_eq(t, "thread") {
        LuaType::Thread
    } else {
        LuaType::Class(owned(t))
    }
}

/// Reads annotation text of a compound form (see [`parse_embedded`]).
pub fn parse_embedded_lua_type(text: &str) -> (r: Option<LuaType>)
    ensures
        match r {
            Some(ty) => parse_embedded(text@) == Some(ty@),
            None => parse_embedded(text@) is None,
        },
    decreases text@.len(), 0int,
{
    proof {
        lemma_trim_len(text@);
    }
    let t = trim_exec(text);
    let n = t.unicode_len();
    if n == 0 {
        return None;
    }
    if let Some(inner) = strip_wrapping_parens(t) {
        proof {
            lemma_trim_len(t@.subrange(1, t@.len() - 1));
        }
        return parse_embedded_lua_type(inner);
    }
    let parts = split_top_level_exec(t, '|');
    let ghost pv = slices_view(parts@);
    proof {
        lemma_split_parts(t@, '|');
    }
    if parts.len() > 1 {
        let mut atoms: Vec<LuaType> = Vec::new();
        let mut i: usize = 0;
        while i < parts.len()
            invariant
                pv == slices_view(parts@),
                pv == split_top_level(t@, '|'),
                t@.len() <= text@.len(),
                pv.len() > 1,
                forall|j: int| 0 <= j < pv.len() ==> (#[trigger] pv[j]).len() < t@.len(),
                i <= parts.len(),
                atoms.len() == i,
                forall|j: int| 0 <= j < i ==> (#[trigger] atoms[j])@ == atom_at(pv, j),
            decreases parts.len() - i,
        {
            assert(pv[i as int] == parts[i as int]@);
            let a = parse_embedded_lua_type_atom(parts[i]);
            atoms.push(a);
            i += 1;
        }
        let ghost av = tys_view(atoms);
        let r = make_union(atoms);
        assert forall|xs: Seq<LuaTy>|
            xs.len() == pv.len() && (forall|i: int|
                0 <= i < xs.len() ==> #[trigger] xs[i] == atom_at(pv, i)) implies #[trigger] union_of(
            xs,
        ) == union_of(av) by {
            assert(xs =~= av);
        }
        return Some(r);
    }
    if t.get_char(n - 1) == '?' {
        proof {
            lemma_trim_len(t@.subrange(0, t@.len() - 1));
        }
        let inner = trim_exec(t.substring_char(0, n - 1));
        return Some(LuaType::Optional(Box::new(parse_embedded_lua_type_atom(inner))));
    }
    if n >= 2 && t.get_char(n - 2) == '[' && t.get_char(n - 1) == ']' {
        proof {
            lemma_trim_len(t@.subrange(0, t@.len() - 2));
        }
        let inner = trim_exec(t.substring_char(0, n - 2));
        return Some(LuaType::Array(Box::new(parse_embedded_lua_type_atom(inner))));
    }
    if n >= 3 && t.get_char(n - 3) == '.' && t.get_char(n - 2) == '.' && t.get_char(n - 1) == '.' {
        proof {
            lemma_trim_len(t@.subrange(0, t@.len() - 3));
        }
        let inner = trim_exec(t.substring_char(0, n - 3));
        return Some(LuaType::Variadic(Box::new(parse_embedded_lua_type_atom(inner))));
    }
    proof {
        reveal_strlit("table<");
    }
    if n >= 7 && starts_with_exec(t, "table<") && t.get_char(n - 1) == '>' {
        let inner = t.substring_char(6, n - 1);
        let ps = split_top_level_exec(inner, ',');
        proof {
            lemma_split_parts(inner@, ',');
        }
        if ps.len() == 2 {
            assert(slices_view(ps@)[0] == ps[0]@);
            assert(slices_view(ps@)[1] == ps[1]@);
            let k = parse_embedded_lua_type_atom(ps[0]);
            let v = parse_embedded_lua_type_atom(ps[1]);
            return Some(LuaType::TypedTable(Box::new(k), Box::new(v)));
        }
        return None;
    }
    None
}

/// Reads annotation text, taking bare words as built-in types or class
/// names (see [`parse_atom`]).
pub fn parse_embedded_lua_type_atom(text: &str) -> (r: LuaType)
    ensures
        r@ == parse_atom(text@),
    decreases text@.len(), 1int,
{
    match parse_embedded_lua_type(text) {
        Some(t) => t,
        None => keyword_ty_exec(trim_exec(text)),
    }
}

/// `parts` joined with `sep`.
pub fn join_strings(parts: &Vec<String>, sep: &str) -> (r: String)
    ensures
        r@ == join_texts(strs_view(*parts), sep@),
{
    let ghost pv = strs_view(*parts);
    let mut out = String::new();
    let mut i: usize = 0;
    while i < parts.len()
        invariant
            pv == strs_view(*parts),
            i <= parts.len(),
            out@ == join_texts(pv.take(i as int), sep@),
        decreases parts.len() - i,
    {
        assert(pv.take(i + 1).drop_last() =~= pv.take(i as int));
        assert(pv.take(i + 1).last() == parts[i as int]@);
        if i > 0 {
            out.append(sep);
        }
        out.append(parts[i].as_str());
        if i == 0 {
            assert(out@ =~= pv.take(1)[0]);
        }
        i += 1;
    }
    assert(pv.take(parts.len() as int) =~= pv);
    out
}

fn digit_string(d: usize) -> (r: String)
    requires
        d < 10,
    ensures
        r@ == digit_text(d as nat),
{
    proof {
        reveal_strlit("0123456789");
    }
    owned("0123456789".substring_char(d, d + 1))
}

/// `n` in decimal.
pub fn dec_string(n: usize) -> (r: String)
    ensures
        r@ == dec_text(n as nat),
    decreases n,
{
    if n < 10 {
        digit_string(n)
    } else {
        let mut s = dec_string(n / 10);
        let d = digit_string(n % 10);
        s.append(d.as_str());
        s
    }
}

fn quoted_string(v: &String) -> (r: String)
    ensures
        r@ == quoted(v@),
{
    let mut out = String::new();
    out.append("\"");
    out.append(v.as_str());
    out.append("\"");
    out
}

/// The annotation text of `t` (see [`ty_text`]).
pub fn ty_to_string(t: &LuaType) -> (r: String)
    ensures
        r@ == ty_text(t@),
    decreases cmax(t@), t,
{
    reveal(ty_text);
    match t {
        LuaType::Nil => owned("nil"),
        LuaType::Boolean => owned("boolean"),
        LuaType::Integer => owned("integer"),
        LuaType::Number => owned("number"),
        LuaType::String => owned("string"),
        LuaType::Table => owned("table"),
        LuaType::Function => owned("function"),
        LuaType::Any => owned("any"),
        LuaType::Thread => owned("thread"),
        LuaType::Array(inner) => {
            let x = ty_to_string(inner);
            let wrap = match &**inner {
                LuaType::Optional(_) | LuaType::TypedTable(_, _) => true,
                _ => false,
            };
            let mut out = String::new();
            if wrap {
                out.append("(");
                out.append(x.as_str());
                out.append(")[]");
            } else {
                out.append(x.as_str());
                out.append("[]");
            }
            out
        },
        LuaType::Optional(inner) => {
            let x = ty_to_string(inner);
            let wrap = match &**inner {
                LuaType::Union(_) | LuaType::StringLiteral(_) | LuaType::FunctionSig { .. } => true,
                _ => false,
            };
            let mut out = String::new();
            if wrap {
                out.append("(");
                out.append(x.as_str());
                out.append(")?");
            } else {
                out.append(x.as_str());
                out.append("?");
            }
            out
        },
        LuaType::TypedTable(k, v) => {
            let ks = ty_to_string(k);
            let vs = ty_to_string(v);
            let mut out = String::new();
            out.append("table<");
            out.append(ks.as_str());
            out.append(", ");
            out.append(vs.as_str());
            out.append(">");
            out
        },
        LuaType::Class(name) => {
            proof {
                lemma_parse_bound(name@);
            }
            match parse_embedded_lua_type(name.as_str()) {
                Some(p) => ty_to_string(&p),
                None => name.clone(),
            }
        },
        LuaType::StringLiteral(vs) => {
            let ghost sv = strs_view(*vs);
            let mut texts: Vec<String> = Vec::new();
            let mut i: usize = 0;
            while i < vs.len()
                invariant
                    sv == strs_view(*vs),
                    i <= vs.len(),
                    texts.len() == i,
                    forall|j: int| 0 <= j < i ==> (#[trigger] texts[j])@ == quoted(sv[j]),
                decreases vs.len() - i,
            {
                texts.push(quoted_string(&vs[i]));
                i += 1;
            }
            let r = join_strings(&texts, " | ");
            assert(strs_view(texts) =~= sv.map_values(|v: Seq<char>| quoted(v)));
            r
        },
        LuaType::Union(items) => {
            let ghost iv = tys_view(*items);
            proof {
                lemma_cmax_seq_elems(iv);
            }
            let mut texts: Vec<String> = Vec::new();
            let mut i: usize = 0;
            while i < items.len()
                invariant
                    iv == tys_view(*items),
                    t@ == LuaTy::Union(iv),
                    *t == LuaType::Union(*items),
                    all_le(iv, cmax(t@)),
                    i <= items.len(),
                    texts.len() == i,
                    forall|j: int| 0 <= j < i ==> (#[trigger] texts[j])@ == ty_text(iv[j]),
                decreases items.len() - i,
            {
                assert(iv[i as int] == items[i as int]@);
                texts.push(ty_to_string(&items[i]));
                i += 1;
            }
            let r = join_strings(&texts, " | ");
            let ghost tv = strs_view(texts);
            assert forall|xs: Seq<Seq<char>>|
                xs.len() == iv.len() && (forall|i: int|
                    0 <= i < xs.len() ==> #[trigger] xs[i] == (if 0 <= i < iv.len() {
                        ty_text(iv[i])
                    } else {
                        Seq::empty()
                    })) implies #[trigger] join_texts(xs, " | "@) == join_texts(tv, " | "@) by {
                assert(xs =~= tv);
            }
            r
        },
        LuaType::Variadic(inner) => {
            let x = ty_to_string(inner);
            let mut out = String::new();
            out.append(x.as_str());
            out.append("...");
            out
        },
        LuaType::FunctionSig { params, returns: rets } => {
            let ghost pv = tys_view(*params);
            let ghost rv = tys_view(*rets);
            proof {
                lemma_cmax_seq_elems(pv);
                lemma_cmax_seq_elems(rv);
            }
            let mut ptexts: Vec<String> = Vec::new();
            let mut i: usize = 0;
            while i < params.len()
                invariant
                    pv == tys_view(*params),
                    t@ == (LuaTy::FunctionSig { params: pv, returns: rv }),
                    *t == (LuaType::FunctionSig { params: *params, returns: *rets }),
                    all_le(pv, cmax(t@)),
                    i <= params.len(),
                    ptexts.len() == i,
                    forall|j: int|
                        0 <= j < i ==> (#[trigger] ptexts[j])@ == "p"@ + dec_text((j + 1) as nat)
                            + ": "@ + ty_text(pv[j]),
                decreases params.len() - i,
            {
                assert(pv[i as int] == params[i as int]@);
                let mut one = owned("p");
                let num = dec_string(i + 1);
                one.append(num.as_str());
                one.append(": ");
                let pt = ty_to_string(&params[i]);
                one.append(pt.as_str());
                ptexts.push(one);
                i += 1;
            }
            let mut rtexts: Vec<String> = Vec::new();
            let mut i: usize = 0;
            while i < rets.len()
                invariant
                    rv == tys_view(*rets),
                    t@ == (LuaTy::FunctionSig { params: pv, returns: rv }),
                    *t == (LuaType::FunctionSig { params: *params, returns: *rets }),
                    all_le(rv, cmax(t@)),
                    i <= rets.len(),
                    rtexts.len() == i,
                    forall|j: int| 0 <= j < i ==> (#[trigger] rtexts[j])@ == ty_text(rv[j]),
                decreases rets.len() - i,
            {
                assert(rv[i as int] == rets[i as int]@);
                rtexts.push(ty_to_string(&rets[i]));
                i += 1;
            }
            let ps = join_strings(&ptexts, ", ");
            let ghost ptv = strs_view(ptexts);
            let ghost rtv = strs_view(rtexts);
            assert forall|xs: Seq<Seq<char>>|
                xs.len() == pv.len() && (forall|i: int|
                    0 <= i < xs.len() ==> #[trigger] xs[i] == (if 0 <= i < pv.len() {
                        "p"@ + dec_text((i + 1) as nat) + ": "@ + ty_text(pv[i])
                    } else {
                        Seq::empty()
                    })) implies #[trigger] join_texts(xs, ", "@) == join_texts(ptv, ", "@) by {
                assert(xs =~= ptv);
            }
            assert forall|xs: Seq<Seq<char>>|
                xs.len() == rv.len() && (forall|i: int|
                    0 <= i < xs.len() ==> #[trigger] xs[i] == (if 0 <= i < rv.len() {
                        ty_text(rv[i])
                    } else {
                        Seq::empty()
                    })) implies #[trigger] join_texts(xs, ", "@) == join_texts(rtv, ", "@) by {
                assert(xs =~= rtv);
            }
            let mut out = owned("fun(");
            out.append(ps.as_str());
            out.append(")");
            if rets.len() > 0 {
                let rs = join_strings(&rtexts, ", ");
                out.append(": ");
                out.append(rs.as_str());
            }
            out
        },
    }
}

impl LuaType {
    /// The LuaCATS annotation text of this type.
    pub fn to_string(&self) -> (r: String)
        ensures
            r@ == ty_text(self@),
    {
        ty_to_string(self)
    }
}

/// The display of a class named `name`: the type its text denotes when it
/// has a compound form, else the name itself.
pub fn format_embedded_class_name(name: &str) -> (r: String)
    ensures
        r@ == ty_text(LuaTy::Class(name@)),
{
    reveal(ty_text);
    proof {
        lemma_parse_bound(name@);
    }
    match parse_embedded_lua_type(name) {
        Some(ty) => ty_to_string(&ty),
        None => owned(name),
    }
}

} // verus!
