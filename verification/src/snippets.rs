//! Recognising names and reading Rust source snippets: the text-level
//! helpers of API extraction.
use vstd::prelude::*;

use crate::text::{
    after_last, after_last_exec, contains, contains_exec, depth_after, ends_with, ends_with_exec,
    find, find_char, find_char_exec, find_exec, lemma_depth_bound,
    lemma_find_sound, owned, prefix_to, rfind, rfind_exec, starts_with_exec, str_eq, suffix_from,
    trim, trim_exec,
};
use crate::union::{is_generic_ref_name, is_ref_base};

verus! {

/// Method names that pass their receiver's value through unchanged.
pub open spec fn is_passthrough_method_set(name: Seq<char>) -> bool {
    name == "and_then"@
    || name == "map"@
    || name == "map_err"@
    || name == "ok"@
    || name == "err"@
    || name == "into"@
    || name == "into_lua_err"@
    || name == "with_context"@
    || name == "context"@
    || name == "clone"@
    || name == "to_owned"@
    || name == "borrow"@
    || name == "as_ref"@
}

/// Method names that pass their receiver's value through unchanged.
pub fn is_passthrough_method(name: &str) -> (r: bool)
    ensures
        r == is_passthrough_method_set(name@),
{
    str_eq(name, "and_then")
        || str_eq(name, "map")
        || str_eq(name, "map_err")
        || str_eq(name, "ok")
        || str_eq(name, "err")
        || str_eq(name, "into")
        || str_eq(name, "into_lua_err")
        || str_eq(name, "with_context")
        || str_eq(name, "context")
        || str_eq(name, "clone")
        || str_eq(name, "to_owned")
        || str_eq(name, "borrow")
        || str_eq(name, "as_ref")
}

/// The `UserDataMethods` registration calls.
pub open spec fn is_method_registration_name_set(name: Seq<char>) -> bool {
    name == "add_method"@
    || name == "add_method_mut"@
    || name == "add_method_once"@
    || name == "add_async_method"@
    || name == "add_async_method_mut"@
    || name == "add_async_method_once"@
    || name == "add_function"@
    || name == "add_function_mut"@
    || name == "add_async_function"@
}

/// The `UserDataMethods` registration calls.
pub fn is_method_registration_name(name: &str) -> (r: bool)
    ensures
        r == is_method_registration_name_set(name@),
{
    str_eq(name, "add_method")
        || str_eq(name, "add_method_mut")
        || str_eq(name, "add_method_once")
        || str_eq(name, "add_async_method")
        || str_eq(name, "add_async_method_mut")
        || str_eq(name, "add_async_method_once")
        || str_eq(name, "add_function")
        || str_eq(name, "add_function_mut")
        || str_eq(name, "add_async_function")
}

/// Classes traced during extraction when tracing is on.
pub open spec fn should_trace_class_name_set(name: Seq<char>) -> bool {
    name == "Access"@
    || name == "Path"@
    || name == "Url"@
    || name == "Style"@
    || name == "File"@
    || name == "Tab"@
}

/// Classes traced during extraction when tracing is on.
pub fn should_trace_class_name(name: &str) -> (r: bool)
    ensures
        r == should_trace_class_name_set(name@),
{
    str_eq(name, "Access")
        || str_eq(name, "Path")
        || str_eq(name, "Url")
        || str_eq(name, "Style")
        || str_eq(name, "File")
        || str_eq(name, "Tab")
}

/// Methods traced during extraction when tracing is on.
pub open spec fn should_trace_method_name_set(name: Seq<char>) -> bool {
    name == "open"@
    || name == "history"@
    || name == "ends_with"@
    || name == "join"@
    || name == "starts_with"@
    || name == "strip_prefix"@
    || name == "raw"@
    || name == "__eq"@
    || name == "__pairs"@
}

/// Methods traced during extraction when tracing is on.
pub fn should_trace_method_name(name: &str) -> (r: bool)
    ensures
        r == should_trace_method_name_set(name@),
{
    str_eq(name, "open")
        || str_eq(name, "history")
        || str_eq(name, "ends_with")
        || str_eq(name, "join")
        || str_eq(name, "starts_with")
        || str_eq(name, "strip_prefix")
        || str_eq(name, "raw")
        || str_eq(name, "__eq")
        || str_eq(name, "__pairs")
}

/// Fields traced during extraction when tracing is on.
pub open spec fn should_trace_field_name_set(name: Seq<char>) -> bool {
    name == "base"@
    || name == "parent"@
    || name == "raw"@
    || name == "url"@
    || name == "path"@
}

/// Fields traced during extraction when tracing is on.
pub fn should_trace_field_name(name: &str) -> (r: bool)
    ensures
        r == should_trace_field_name_set(name@),
{
    str_eq(name, "base")
        || str_eq(name, "parent")
        || str_eq(name, "raw")
        || str_eq(name, "url")
        || str_eq(name, "path")
}

/// Containers that become `string` when their element type is `u8`.
pub open spec fn is_byte_container_set(path: Seq<char>) -> bool {
    path == "std::vec::Vec"@
    || path == "alloc::vec::Vec"@
    || path == "std::collections::VecDeque"@
    || path == "std::collections::vec_deque::VecDeque"@
    || path == "arrayvec::ArrayVec"@
    || path == "smallvec::SmallVec"@
    || path == "tinyvec::TinyVec"@
    || path == "tinyvec::ArrayVec"@
    || path == "thin_vec::ThinVec"@
}

/// Containers that become `string` when their element type is `u8`.
pub fn is_byte_container(path: &str) -> (r: bool)
    ensures
        r == is_byte_container_set(path@),
{
    str_eq(path, "std::vec::Vec")
        || str_eq(path, "alloc::vec::Vec")
        || str_eq(path, "std::collections::VecDeque")
        || str_eq(path, "std::collections::vec_deque::VecDeque")
        || str_eq(path, "arrayvec::ArrayVec")
        || str_eq(path, "smallvec::SmallVec")
        || str_eq(path, "tinyvec::TinyVec")
        || str_eq(path, "tinyvec::ArrayVec")
        || str_eq(path, "thin_vec::ThinVec")
}

/// The Fn-family traits (Fn, FnMut, FnOnce and their async variants).
pub open spec fn is_fn_trait_set(path: Seq<char>) -> bool {
    path == "std::ops::Fn"@
    || path == "core::ops::Fn"@
    || path == "std::ops::FnMut"@
    || path == "core::ops::FnMut"@
    || path == "std::ops::FnOnce"@
    || path == "core::ops::FnOnce"@
    || path == "std::ops::AsyncFn"@
    || path == "core::ops::AsyncFn"@
    || path == "std::ops::AsyncFnMut"@
    || path == "core::ops::AsyncFnMut"@
    || path == "std::ops::AsyncFnOnce"@
    || path == "core::ops::AsyncFnOnce"@
}

/// The Fn-family traits (Fn, FnMut, FnOnce and their async variants).
pub fn is_fn_trait(path: &str) -> (r: bool)
    ensures
        r == is_fn_trait_set(path@),
{
    str_eq(path, "std::ops::Fn")
        || str_eq(path, "core::ops::Fn")
        || str_eq(path, "std::ops::FnMut")
        || str_eq(path, "core::ops::FnMut")
        || str_eq(path, "std::ops::FnOnce")
        || str_eq(path, "core::ops::FnOnce")
        || str_eq(path, "std::ops::AsyncFn")
        || str_eq(path, "core::ops::AsyncFn")
        || str_eq(path, "std::ops::AsyncFnMut")
        || str_eq(path, "core::ops::AsyncFnMut")
        || str_eq(path, "std::ops::AsyncFnOnce")
        || str_eq(path, "core::ops::AsyncFnOnce")
}

/// String-like traits (Display, ToString, Error).
pub open spec fn is_string_trait_set(path: Seq<char>) -> bool {
    path == "std::fmt::Display"@
    || path == "core::fmt::Display"@
    || path == "std::string::ToString"@
    || path == "alloc::string::ToString"@
    || path == "std::error::Error"@
    || path == "core::error::Error"@
}

/// String-like traits (Display, ToString, Error).
pub fn is_string_trait(path: &str) -> (r: bool)
    ensures
        r == is_string_trait_set(path@),
{
    str_eq(path, "std::fmt::Display")
        || str_eq(path, "core::fmt::Display")
        || str_eq(path, "std::string::ToString")
        || str_eq(path, "alloc::string::ToString")
        || str_eq(path, "std::error::Error")
        || str_eq(path, "core::error::Error")
}

/// Iterator or IntoIterator.
pub open spec fn is_iterator_trait_set(path: Seq<char>) -> bool {
    path == "std::iter::Iterator"@
    || path == "core::iter::Iterator"@
    || path == "std::iter::IntoIterator"@
    || path == "core::iter::IntoIterator"@
}

/// Iterator or IntoIterator.
pub fn is_iterator_trait(path: &str) -> (r: bool)
    ensures
        r == is_iterator_trait_set(path@),
{
    str_eq(path, "std::iter::Iterator")
        || str_eq(path, "core::iter::Iterator")
        || str_eq(path, "std::iter::IntoIterator")
        || str_eq(path, "core::iter::IntoIterator")
}

/// AsRef or Borrow (generic over the target type).
pub open spec fn is_asref_trait_set(path: Seq<char>) -> bool {
    path == "std::convert::AsRef"@
    || path == "core::convert::AsRef"@
    || path == "std::borrow::Borrow"@
    || path == "core::borrow::Borrow"@
}

/// AsRef or Borrow (generic over the target type).
pub fn is_asref_trait(path: &str) -> (r: bool)
    ensures
        r == is_asref_trait_set(path@),
{
    str_eq(path, "std::convert::AsRef")
        || str_eq(path, "core::convert::AsRef")
        || str_eq(path, "std::borrow::Borrow")
        || str_eq(path, "core::borrow::Borrow")
}

/// Into (a generic conversion trait).
pub open spec fn is_into_trait_set(path: Seq<char>) -> bool {
    path == "std::convert::Into"@
    || path == "core::convert::Into"@
}

/// Into (a generic conversion trait).
pub fn is_into_trait(path: &str) -> (r: bool)
    ensures
        r == is_into_trait_set(path@),
{
    str_eq(path, "std::convert::Into")
        || str_eq(path, "core::convert::Into")
}

/// Deref.
pub open spec fn is_deref_trait_set(path: Seq<char>) -> bool {
    path == "std::ops::Deref"@
    || path == "core::ops::Deref"@
}

/// Deref.
pub fn is_deref_trait(path: &str) -> (r: bool)
    ensures
        r == is_deref_trait_set(path@),
{
    str_eq(path, "std::ops::Deref")
        || str_eq(path, "core::ops::Deref")
}

// ── trait paths ───────────────────────────────────────────────────────

pub open spec fn is_userdata_trait_path(p: Seq<char>) -> bool {
    p == "mlua::UserData"@ || p == "mlua::prelude::LuaUserData"@ || ends_with(p, "::UserData"@)
}

/// Whether a trait path names mlua's `UserData`.
pub fn is_userdata_trait(path: &str) -> (r: bool)
    ensures
        r == is_userdata_trait_path(path@),
{
    str_eq(path, "mlua::UserData") || str_eq(path, "mlua::prelude::LuaUserData")
        || ends_with_exec(path, "::UserData")
}

pub open spec fn is_into_lua_trait_path(p: Seq<char>) -> bool {
    p == "mlua::IntoLua"@ || p == "mlua::prelude::LuaIntoLua"@ || ends_with(p, "::IntoLua"@)
}

/// Whether a trait path names mlua's `IntoLua`.
pub fn is_into_lua_trait(path: &str) -> (r: bool)
    ensures
        r == is_into_lua_trait_path(path@),
{
    str_eq(path, "mlua::IntoLua") || str_eq(path, "mlua::prelude::LuaIntoLua") || ends_with_exec(
        path,
        "::IntoLua",
    )
}

pub open spec fn is_from_lua_trait_path(p: Seq<char>) -> bool {
    p == "mlua::FromLua"@ || p == "mlua::prelude::LuaFromLua"@ || ends_with(p, "::FromLua"@)
}

/// Whether a trait path names mlua's `FromLua`.
pub fn is_from_lua_trait(path: &str) -> (r: bool)
    ensures
        r == is_from_lua_trait_path(path@),
{
    str_eq(path, "mlua::FromLua") || str_eq(path, "mlua::prelude::LuaFromLua") || ends_with_exec(
        path,
        "::FromLua",
    )
}

// ── reference aliases ─────────────────────────────────────────────────

/// The class that a reference alias such as `FileRef` or `FileRefMut`
/// stands for, unless the name is itself a known class or a generic
/// userdata reference.
pub open spec fn ref_alias_base(name: Seq<char>, known: Seq<Seq<char>>) -> Option<Seq<char>> {
    if known.contains(name) || is_generic_ref_name(name) {
        None
    } else if ends_with(name, "RefMut"@) && is_ref_base(name.subrange(0, name.len() - 6)) {
        Some(name.subrange(0, name.len() - 6))
    } else if ends_with(name, "Ref"@) && is_ref_base(name.subrange(0, name.len() - 3)) {
        Some(name.subrange(0, name.len() - 3))
    } else {
        None
    }
}

/// See [`ref_alias_base`]; the known class names are given as a list.
pub fn ref_alias_base_name(name: &str, known_names: &[String]) -> (r: Option<String>)
    ensures
        match r {
            Some(b) => ref_alias_base(name@, crate::driver::texts(known_names@)) == Some(b@),
            None => ref_alias_base(name@, crate::driver::texts(known_names@)) is None,
        },
{
    let ghost known = crate::driver::texts(known_names@);
    let mut i: usize = 0;
    while i < known_names.len()
        invariant
            known == crate::driver::texts(known_names@),
            i <= known_names.len(),
            forall|j: int| 0 <= j < i ==> known[j] != name@,
        decreases known_names.len() - i,
    {
        assert(known[i as int] == known_names[i as int]@);
        if str_eq(known_names[i].as_str(), name) {
            return None;
        }
        i += 1;
    }
    if str_eq(name, "UserDataRef") || str_eq(name, "UserDataRefMut") {
        return None;
    }
    proof {
        reveal_strlit("RefMut");
        reveal_strlit("Ref");
    }
    let n = name.unicode_len();
    if ends_with_exec(name, "RefMut") && n > 6 {
        let c = name.get_char(0);
        assert(name@.subrange(0, n - 6)[0] == name@[0]);
        if 'A' <= c && c <= 'Z' {
            return Some(owned(name.substring_char(0, n - 6)));
        }
    }
    if ends_with_exec(name, "Ref") && n > 3 {
        let c = name.get_char(0);
        assert(name@.subrange(0, n - 3)[0] == name@[0]);
        if 'A' <= c && c <= 'Z' {
            return Some(owned(name.substring_char(0, n - 3)));
        }
    }
    None
}

// ── attribute text ────────────────────────────────────────────────────

/// The text between the first two `"` after the first `name =` in `s`.
pub open spec fn name_attr_value(s: Seq<char>) -> Option<Seq<char>> {
    match find(s, "name"@) {
        None => None,
        Some(idx) => {
            let rest = trim(s.subrange(idx + 4, s.len() as int));
            if rest.len() > 0 && rest[0] == '=' {
                let r2 = trim(rest.subrange(1, rest.len() as int));
                match find_char(r2, '"') {
                    None => None,
                    Some(a) => {
                        let r3 = r2.subrange(a + 1, r2.len() as int);
                        match find_char(r3, '"') {
                            None => None,
                            Some(b) => Some(r3.subrange(0, b)),
                        }
                    },
                }
            } else {
                None
            }
        },
    }
}

/// Simple parser for `name = "value"` in attribute arg strings.
pub fn parse_name_attr(s: &str) -> (r: Option<String>)
    ensures
        match r {
            Some(v) => name_attr_value(s@) == Some(v@),
            None => name_attr_value(s@) is None,
        },
{
    proof {
        reveal_strlit("name");
        lemma_find_sound(s@, "name"@);
    }
    let idx = match find_exec(s, "name") {
        Some(i) => i,
        None => return None,
    };
    let rest = trim_exec(suffix_from(s, idx + 4));
    let n = rest.unicode_len();
    if n == 0 || rest.get_char(0) != '=' {
        return None;
    }
    let r2 = trim_exec(suffix_from(rest, 1));
    let a = match find_char_exec(r2, '"') {
        Some(a) => a,
        None => return None,
    };
    let r3 = suffix_from(r2, a + 1);
    let b = match find_char_exec(r3, '"') {
        Some(b) => b,
        None => return None,
    };
    Some(owned(prefix_to(r3, b)))
}

// ── closure snippets ──────────────────────────────────────────────────

/// The trimmed text between the first two `|` of a closure snippet.
pub open spec fn closure_params_text(s: Seq<char>) -> Option<Seq<char>> {
    match find_char(s, '|') {
        None => None,
        Some(a) => {
            let rest = s.subrange(a + 1, s.len() as int);
            match find_char(rest, '|') {
                None => None,
                Some(b) => Some(trim(rest.subrange(0, b))),
            }
        },
    }
}

/// The parameter list of a closure snippet (`|a, b: T| ...` gives `a, b: T`).
pub fn closure_params_snippet<'a>(snippet: &'a str) -> (r: Option<&'a str>)
    ensures
        match r {
            Some(p) => closure_params_text(snippet@) == Some(p@),
            None => closure_params_text(snippet@) is None,
        },
{
    let a = match find_char_exec(snippet, '|') {
        Some(a) => a,
        None => return None,
    };
    let rest = suffix_from(snippet, a + 1);
    let b = match find_char_exec(rest, '|') {
        Some(b) => b,
        None => return None,
    };
    Some(trim_exec(prefix_to(rest, b)))
}

pub open spec fn colon_scan(s: Seq<char>, i: int) -> Option<int>
    decreases s.len() - i,
{
    if i < 0 || i >= s.len() {
        None
    } else if s[i] == ':' && depth_after(s, i as nat) == (0nat, 0nat, 0nat) {
        Some(i)
    } else {
        colon_scan(s, i + 1)
    }
}

/// The type after the first `:` that stands outside brackets in a
/// parameter, trimmed.
pub open spec fn param_type_annotation(s: Seq<char>) -> Option<Seq<char>> {
    match colon_scan(s, 0) {
        Some(i) => Some(trim(s.subrange(i + 1, s.len() as int))),
        None => None,
    }
}

pub proof fn lemma_colon_scan_bound(s: Seq<char>, i: int)
    requires
        0 <= i,
    ensures
        colon_scan(s, i) matches Some(k) ==> i <= k < s.len(),
    decreases s.len() - i,
{
    if i < s.len() && !(s[i] == ':' && depth_after(s, i as nat) == (0nat, 0nat, 0nat)) {
        lemma_colon_scan_bound(s, i + 1);
    }
}

/// The type annotation of a closure parameter (`x: Vec<(A, B)>` gives
/// `Vec<(A, B)>`).
pub fn top_level_param_type_annotation<'a>(param: &'a str) -> (r: Option<&'a str>)
    ensures
        match r {
            Some(t) => param_type_annotation(param@) == Some(t@),
            None => param_type_annotation(param@) is None,
        },
{
    let n = param.unicode_len();
    let mut angle: usize = 0;
    let mut paren: usize = 0;
    let mut bracket: usize = 0;
    let mut i: usize = 0;
    while i < n
        invariant
            n == param@.len(),
            i <= n,
            (angle as nat, paren as nat, bracket as nat) == depth_after(param@, i as nat),
            colon_scan(param@, 0) == colon_scan(param@, i as int),
        decreases n - i,
    {
        proof {
            lemma_depth_bound(param@, i as nat);
        }
        let ch = param.get_char(i);
        if ch == ':' && angle == 0 && paren == 0 && bracket == 0 {
            return Some(trim_exec(suffix_from(param, i + 1)));
        }
        if ch == '<' {
            angle = angle + 1;
        } else if ch == '>' {
            angle = if angle > 0 { angle - 1 } else { 0 };
        } else if ch == '(' {
            paren = paren + 1;
        } else if ch == ')' {
            paren = if paren > 0 { paren - 1 } else { 0 };
        } else if ch == '[' {
            bracket = bracket + 1;
        } else if ch == ']' {
            bracket = if bracket > 0 { bracket - 1 } else { 0 };
        }
        i += 1;
    }
    None
}

pub open spec fn is_any_userdata_text(s: Seq<char>) -> bool {
    let t = trim(s);
    t == "AnyUserData"@ || t == "mlua::AnyUserData"@ || t == "mlua::userdata::AnyUserData"@ || t
        == "mlua::prelude::LuaAnyUserData"@
}

/// Whether a type snippet names mlua's `AnyUserData`.
pub fn is_any_userdata_type_snippet(snippet: &str) -> (r: bool)
    ensures
        r == is_any_userdata_text(snippet@),
{
    let t = trim_exec(snippet);
    str_eq(t, "AnyUserData") || str_eq(t, "mlua::AnyUserData") || str_eq(
        t,
        "mlua::userdata::AnyUserData",
    ) || str_eq(t, "mlua::prelude::LuaAnyUserData")
}

/// Snippets whose extraction is traced when tracing is on.
pub fn should_trace_field_expr_snippet(snippet: &str) -> (r: bool)
    ensures
        r == (contains(snippet@, "me.base()"@) || contains(snippet@, "me.parent()"@) || contains(
            snippet@,
            "map(Self::new)"@,
        ) || contains(snippet@, "($value as fn"@)),
{
    contains_exec(snippet, "me.base()") || contains_exec(snippet, "me.parent()") || contains_exec(
        snippet,
        "map(Self::new)",
    ) || contains_exec(snippet, "($value as fn")
}

// ── cross-module calls ────────────────────────────────────────────────

/// The second piece of `s` split at `"`: the text after the first quote,
/// up to the next one if there is one.
pub open spec fn second_piece(s: Seq<char>) -> Option<Seq<char>> {
    match find_char(s, '"') {
        None => None,
        Some(a) => {
            let rest = s.subrange(a + 1, s.len() as int);
            match find_char(rest, '"') {
                Some(b) => Some(rest.subrange(0, b)),
                None => Some(rest),
            }
        },
    }
}

fn second_piece_exec<'a>(s: &'a str) -> (r: Option<&'a str>)
    ensures
        match r {
            Some(p) => second_piece(s@) == Some(p@),
            None => second_piece(s@) is None,
        },
{
    let a = match find_char_exec(s, '"') {
        Some(a) => a,
        None => return None,
    };
    let rest = suffix_from(s, a + 1);
    match find_char_exec(rest, '"') {
        Some(b) => Some(prefix_to(rest, b)),
        None => Some(rest),
    }
}

/// The function that a closure snippet calls through `.get("name")`
/// followed by `.call(` or `.call_async`, as `module.name` when an earlier
/// `.get("module")` names its table.
pub open spec fn cross_module_call(s: Seq<char>) -> Option<Seq<char>> {
    let call = match rfind(s, ".call_async"@) {
        Some(p) => Some(p),
        None => rfind(s, ".call("@),
    };
    match call {
        None => None,
        Some(call_pos) => {
            let before_call = s.subrange(0, call_pos);
            match rfind(before_call, ".get("@) {
                None => None,
                Some(get_pos) => match second_piece(
                    before_call.subrange(get_pos + 5, before_call.len() as int),
                ) {
                    None => None,
                    Some(func) => if func.len() == 0 {
                        None
                    } else {
                        let before_func_get = before_call.subrange(0, get_pos);
                        match rfind(before_func_get, ".get("@) {
                            Some(m) => match second_piece(
                                before_func_get.subrange(m + 5, before_func_get.len() as int),
                            ) {
                                Some(module) => if module.len() > 0 {
                                    Some(module + "."@ + func)
                                } else {
                                    Some(func)
                                },
                                None => Some(func),
                            },
                            None => Some(func),
                        }
                    },
                },
            }
        },
    }
}

/// Extract a cross-module function call from a closure snippet (see
/// [`cross_module_call`]).
pub fn extract_cross_module_call_from_snippet(snippet: &str) -> (r: Option<String>)
    ensures
        match r {
            Some(v) => cross_module_call(snippet@) == Some(v@),
            None => cross_module_call(snippet@) is None,
        },
{
    proof {
        reveal_strlit(".get(");
        lemma_find_sound(snippet@, ".call_async"@);
        lemma_find_sound(snippet@, ".call("@);
    }
    let call_pos = match rfind_exec(snippet, ".call_async") {
        Some(p) => p,
        None => match rfind_exec(snippet, ".call(") {
            Some(p) => p,
            None => return None,
        },
    };
    let before_call = prefix_to(snippet, call_pos);
    proof {
        lemma_find_sound(before_call@, ".get("@);
    }
    let get_pos = match rfind_exec(before_call, ".get(") {
        Some(p) => p,
        None => return None,
    };
    let after_get = suffix_from(before_call, get_pos + 5);
    let func = match second_piece_exec(after_get) {
        Some(f) => f,
        None => return None,
    };
    if func.unicode_len() == 0 {
        return None;
    }
    let before_func_get = prefix_to(before_call, get_pos);
    proof {
        lemma_find_sound(before_func_get@, ".get("@);
    }
    if let Some(m) = rfind_exec(before_func_get, ".get(") {
        let after_mod_get = suffix_from(before_func_get, m + 5);
        if let Some(module) = second_piece_exec(after_mod_get) {
            if module.unicode_len() > 0 {
                let mut out = owned(module);
                out.append(".");
                out.append(func);
                return Some(out);
            }
        }
    }
    Some(owned(func))
}

// ── paths and generic arguments ───────────────────────────────────────

/// Where the last `::` outside `<...>` ends, scanning from `i` with
/// nesting `depth` and the end of the last `::` so far at `last`.
pub open spec fn segment_scan(s: Seq<char>, i: int, depth: nat, last: int) -> int
    decreases s.len() - i,
{
    if i < 0 || i + 1 >= s.len() {
        last
    } else if s[i] == '<' {
        segment_scan(s, i + 1, depth + 1, last)
    } else if s[i] == '>' {
        segment_scan(s, i + 1, if depth == 0 { 0 } else { (depth - 1) as nat }, last)
    } else if s[i] == ':' && depth == 0 && s[i + 1] == ':' {
        segment_scan(s, i + 2, depth, i + 2)
    } else {
        segment_scan(s, i + 1, depth, last)
    }
}

pub proof fn lemma_segment_scan_bound(s: Seq<char>, i: int, depth: nat, last: int)
    requires
        0 <= i,
        0 <= last <= s.len(),
    ensures
        0 <= segment_scan(s, i, depth, last) <= s.len(),
    decreases s.len() - i,
{
    if i + 1 < s.len() {
        if s[i] == '<' {
            lemma_segment_scan_bound(s, i + 1, depth + 1, last);
        } else if s[i] == '>' {
            lemma_segment_scan_bound(
                s,
                i + 1,
                if depth == 0 {
                    0
                } else {
                    (depth - 1) as nat
                },
                last,
            );
        } else if s[i] == ':' && depth == 0 && s[i + 1] == ':' {
            lemma_segment_scan_bound(s, i + 2, depth, i + 2);
        } else {
            lemma_segment_scan_bound(s, i + 1, depth, last);
        }
    }
}

/// The last segment of a path, `::` inside generic arguments not counting
/// (`a::B<c::D>` gives `B<c::D>`).
pub open spec fn last_segment(s: Seq<char>) -> Seq<char> {
    s.subrange(segment_scan(s, 0, 0, 0), s.len() as int)
}

/// The last segment of a path (see [`last_segment`]).
pub fn last_path_segment<'a>(name: &'a str) -> (r: &'a str)
    ensures
        r@ == last_segment(name@),
{
    let n = name.unicode_len();
    let mut depth: usize = 0;
    let mut last: usize = 0;
    let mut i: usize = 0;
    while i < n && i + 1 < n
        invariant
            n == name@.len(),
            i <= n,
            last <= n,
            depth <= i,
            segment_scan(name@, 0, 0, 0) == segment_scan(name@, i as int, depth as nat, last as int),
        decreases n - i,
    {
        let c = name.get_char(i);
        if c == '<' {
            depth = depth + 1;
            i += 1;
        } else if c == '>' {
            depth = if depth > 0 { depth - 1 } else { 0 };
            i += 1;
        } else if c == ':' && depth == 0 && name.get_char(i + 1) == ':' {
            last = i + 2;
            i += 2;
        } else {
            i += 1;
        }
    }
    proof {
        lemma_segment_scan_bound(name@, 0, 0, 0);
    }
    suffix_from(name, last)
}

/// The position of the `>` that closes an already open `<`, scanning from
/// `i` at nesting `depth`.
pub open spec fn closing_angle(s: Seq<char>, i: int, depth: nat) -> Option<int>
    decreases s.len() - i,
{
    if i < 0 || i >= s.len() {
        None
    } else if s[i] == '<' {
        closing_angle(s, i + 1, depth + 1)
    } else if s[i] == '>' {
        if depth == 0 {
            Some(i)
        } else {
            closing_angle(s, i + 1, (depth - 1) as nat)
        }
    } else {
        closing_angle(s, i + 1, depth)
    }
}

pub proof fn lemma_closing_angle_bound(s: Seq<char>, i: int, depth: nat)
    requires
        0 <= i,
    ensures
        closing_angle(s, i, depth) matches Some(k) ==> i <= k < s.len(),
    decreases s.len() - i,
{
    if i < s.len() {
        if s[i] == '<' {
            lemma_closing_angle_bound(s, i + 1, depth + 1);
        } else if s[i] == '>' {
            if depth > 0 {
                lemma_closing_angle_bound(s, i + 1, (depth - 1) as nat);
            }
        } else {
            lemma_closing_angle_bound(s, i + 1, depth);
        }
    }
}

/// The generic argument that `input` starts inside of, trimmed, and the
/// number of characters up to and including its closing `>`.
pub open spec fn balanced_arg(input: Seq<char>) -> Option<(Seq<char>, int)> {
    match closing_angle(input, 0, 0) {
        Some(idx) => Some((trim(input.subrange(0, idx)), idx + 1)),
        None => None,
    }
}

/// The generic argument that `input` starts inside of (`Foo<Bar>> rest`
/// gives `Foo<Bar>` and the characters consumed, closing `>` included).
pub fn extract_balanced_generic_arg<'a>(input: &'a str) -> (r: Option<(&'a str, usize)>)
    ensures
        match r {
            Some((arg, consumed)) => balanced_arg(input@) == Some((arg@, consumed as int)),
            None => balanced_arg(input@) is None,
        },
{
    let n = input.unicode_len();
    let mut depth: usize = 0;
    let mut i: usize = 0;
    while i < n
        invariant
            n == input@.len(),
            i <= n,
            depth <= i,
            closing_angle(input@, 0, 0) == closing_angle(input@, i as int, depth as nat),
        decreases n - i,
    {
        let c = input.get_char(i);
        if c == '<' {
            depth = depth + 1;
        } else if c == '>' {
            if depth == 0 {
                return Some((trim_exec(prefix_to(input, i)), i + 1));
            }
            depth = depth - 1;
        }
        i += 1;
    }
    None
}

/// The type names that follow each `marker<` ... `>` in `rest`, by their
/// last path segment, empty ones left out.
pub open spec fn generic_names(rest: Seq<char>, marker: Seq<char>) -> Seq<Seq<char>>
    decreases rest.len(),
{
    match find(rest, marker) {
        None => Seq::empty(),
        Some(start) => {
            proof {
                lemma_find_sound(rest, marker);
            }
            let tail = rest.subrange(start + marker.len(), rest.len() as int);
            match closing_angle(tail, 0, 0) {
                None => Seq::empty(),
                Some(idx) => {
                    proof {
                        lemma_closing_angle_bound(tail, 0, 0);
                    }
                    let seg = trim(after_last(trim(tail.subrange(0, idx)), "::"@));
                    let next = generic_names(tail.subrange(idx + 1, tail.len() as int), marker);
                    if seg.len() > 0 {
                        seq![seg] + next
                    } else {
                        next
                    }
                },
            }
        },
    }
}

/// All type names in `snippet` that follow `marker` (which ends in `<`),
/// by their last path segment.
pub fn extract_all_generic_type_names(snippet: &str, marker: &str) -> (r: Vec<String>)
    ensures
        crate::driver::texts(r@) == generic_names(snippet@, marker@),
{
    let mut names: Vec<String> = Vec::new();
    let mut rest = snippet;
    let m = marker.unicode_len();
    loop
        invariant
            m == marker@.len(),
            rest@.len() <= snippet@.len(),
            crate::driver::texts(names@) + generic_names(rest@, marker@) == generic_names(
                snippet@,
                marker@,
            ),
        decreases rest@.len(),
    {
        proof {
            lemma_find_sound(rest@, marker@);
        }
        let start = match find_exec(rest, marker) {
            Some(s) => s,
            None => {
                assert(crate::driver::texts(names@) =~= crate::driver::texts(names@) + Seq::<
                    Seq<char>,
                >::empty());
                return names;
            },
        };
        let tail = suffix_from(rest, start + m);
        proof {
            lemma_closing_angle_bound(tail@, 0, 0);
        }
        let (name, consumed) = match extract_balanced_generic_arg(tail) {
            Some(x) => x,
            None => {
                assert(crate::driver::texts(names@) =~= crate::driver::texts(names@) + Seq::<
                    Seq<char>,
                >::empty());
                return names;
            },
        };
        let seg = trim_exec(after_last_exec(name, "::"));
        let ghost before = crate::driver::texts(names@);
        let next_rest = suffix_from(tail, consumed);
        if seg.unicode_len() > 0 {
            names.push(owned(seg));
            assert(crate::driver::texts(names@) =~= before.push(seg@));
            assert(before + (seq![seg@] + generic_names(next_rest@, marker@)) =~= before.push(seg@)
                + generic_names(next_rest@, marker@));
        }
        rest = next_rest;
    }
}

/// The first type name in `snippet` that follows `marker`.
pub fn snippet_generic_type_name(snippet: &str, marker: &str) -> (r: Option<String>)
    ensures
        match r {
            Some(v) => generic_names(snippet@, marker@).len() > 0 && generic_names(
                snippet@,
                marker@,
            )[0] == v@,
            None => generic_names(snippet@, marker@).len() == 0,
        },
{
    let mut names = extract_all_generic_type_names(snippet, marker);
    if names.len() == 0 {
        None
    } else {
        assert(crate::driver::texts(names@)[0] == names@[0]@);
        Some(names.remove(0))
    }
}

/// The type named just before `::method` in a snippet.
pub open spec fn type_before_method(s: Seq<char>, method: Seq<char>) -> Option<Seq<char>> {
    match find(s, "::"@ + method) {
        None => None,
        Some(idx) => {
            let name = trim(after_last(s.subrange(0, idx), "::"@));
            if name.len() > 0 {
                Some(name)
            } else {
                None
            }
        },
    }
}

/// The type named just before `::method` in a snippet (`Foo::new(x)` and
/// `new` give `Foo`).
pub fn snippet_type_before_method(snippet: &str, method: &str) -> (r: Option<String>)
    ensures
        match r {
            Some(v) => type_before_method(snippet@, method@) == Some(v@),
            None => type_before_method(snippet@, method@) is None,
        },
{
    let mut marker = owned("::");
    marker.append(method);
    proof {
        lemma_find_sound(snippet@, marker@);
    }
    let idx = match find_exec(snippet, marker.as_str()) {
        Some(i) => i,
        None => return None,
    };
    let name = trim_exec(after_last_exec(prefix_to(snippet, idx), "::"));
    if name.unicode_len() > 0 {
        Some(owned(name))
    } else {
        None
    }
}

/// The position of the last `,` outside `<...>`, scanning from `i` at
/// signed nesting `depth` with the last one so far at `last`.
pub open spec fn last_top_comma(s: Seq<char>, i: int, depth: int, last: Option<int>) -> Option<int>
    decreases s.len() - i,
{
    if i < 0 || i >= s.len() {
        last
    } else if s[i] == '<' {
        last_top_comma(s, i + 1, depth + 1, last)
    } else if s[i] == '>' {
        last_top_comma(s, i + 1, depth - 1, last)
    } else if s[i] == ',' && depth == 0 {
        last_top_comma(s, i + 1, depth, Some(i))
    } else {
        last_top_comma(s, i + 1, depth, last)
    }
}

pub proof fn lemma_last_top_comma_bound(s: Seq<char>, i: int, depth: int, last: Option<int>)
    requires
        0 <= i,
        last matches Some(k) ==> 0 <= k < s.len(),
    ensures
        last_top_comma(s, i, depth, last) matches Some(k) ==> 0 <= k < s.len(),
    decreases s.len() - i,
{
    if i < s.len() {
        if s[i] == '<' {
            lemma_last_top_comma_bound(s, i + 1, depth + 1, last);
        } else if s[i] == '>' {
            lemma_last_top_comma_bound(s, i + 1, depth - 1, last);
        } else if s[i] == ',' && depth == 0 {
            lemma_last_top_comma_bound(s, i + 1, depth, Some(i));
        } else {
            lemma_last_top_comma_bound(s, i + 1, depth, last);
        }
    }
}

/// The value type of an `Iter<K, V>` class name: its last top-level
/// generic argument, trimmed.
pub open spec fn iter_value_arg(name: Seq<char>) -> Option<Seq<char>> {
    if name.len() >= 6 && name.subrange(0, 5) == "Iter<"@ && name.last() == '>' {
        let inner = name.subrange(5, name.len() - 1);
        match last_top_comma(inner, 0, 0, None) {
            None => None,
            Some(c) => {
                let v = trim(inner.subrange(c + 1, inner.len() as int));
                if v.len() > 0 {
                    Some(v)
                } else {
                    None
                }
            },
        }
    } else {
        None
    }
}

/// Given a class name like `"Iter<SomeComplexType, Url>"`, extract the
/// second generic argument (`"Url"`) if present.
pub fn extract_iter_value_arg_from_class_name(name: &str) -> (r: Option<String>)
    ensures
        match r {
            Some(v) => iter_value_arg(name@) == Some(v@),
            None => iter_value_arg(name@) is None,
        },
{
    proof {
        reveal_strlit("Iter<");
    }
    let n = name.unicode_len();
    if !(n >= 6 && starts_with_exec(name, "Iter<") && name.get_char(n - 1) == '>') {
        return None;
    }
    let inner = name.substring_char(5, n - 1);
    let m = inner.unicode_len();
    let mut opens: usize = 0;
    let mut closes: usize = 0;
    let mut last: Option<usize> = None;
    let mut i: usize = 0;
    while i < m
        invariant
            m == inner@.len(),
            i <= m,
            opens <= i,
            closes <= i,
            last matches Some(k) ==> k < m,
            last_top_comma(inner@, 0, 0, None) == last_top_comma(
                inner@,
                i as int,
                opens as int - closes as int,
                match last {
                    Some(k) => Some(k as int),
                    None => None,
                },
            ),
        decreases m - i,
    {
        let c = inner.get_char(i);
        if c == '<' {
            opens = opens + 1;
        } else if c == '>' {
            closes = closes + 1;
        } else if c == ',' && opens == closes {
            last = Some(i);
        }
        i += 1;
    }
    let comma = match last {
        Some(k) => k,
        None => return None,
    };
    let v = trim_exec(suffix_from(inner, comma + 1));
    if v.unicode_len() > 0 {
        Some(owned(v))
    } else {
        None
    }
}

} // verus!
