//! LuaCATS stub generation: the text written for each part of an API.
use vstd::prelude::*;

use crate::display::{quoted, ty_text};
use crate::text::{before_first, before_first_exec, ends_with, ends_with_exec, owned,
    slices_view, starts_with_exec, str_eq};
use crate::{
    CodegenTarget, LuaApi, LuaClass, LuaEnum, LuaField, LuaFunction, LuaMethod, LuaModule,
    LuaParam, LuaReturn, LuaTy, LuaType, MethodKind,
};

verus! {

broadcast use vstd::std_specs::vec::group_vec_axioms;

// ── lines of doc text ─────────────────────────────────────────────────

pub open spec fn strip_cr(x: Seq<char>) -> Seq<char> {
    if x.len() > 0 && x.last() == '\r' {
        x.drop_last()
    } else {
        x
    }
}

/// The lines ended so far and the start of the current line after the
/// first `n` characters.
pub open spec fn lines_scan(s: Seq<char>, n: nat) -> (Seq<Seq<char>>, int)
    decreases n,
{
    if n == 0 || n > s.len() {
        (Seq::empty(), 0)
    } else {
        let (ls, start) = lines_scan(s, (n - 1) as nat);
        if s[n - 1] == '\n' {
            (ls.push(strip_cr(s.subrange(start, n - 1))), n as int)
        } else {
            (ls, start)
        }
    }
}

/// The lines of `s` as `str::lines` gives them: split at `\n`, a `\r`
/// before the `\n` dropped, no empty last line after a final `\n`.
pub open spec fn lines(s: Seq<char>) -> Seq<Seq<char>> {
    let (ls, start) = lines_scan(s, s.len());
    if start < s.len() {
        ls.push(s.subrange(start, s.len() as int))
    } else {
        ls
    }
}

proof fn lemma_lines_scan_start(s: Seq<char>, n: nat)
    requires
        n <= s.len(),
    ensures
        0 <= lines_scan(s, n).1 <= n,
    decreases n,
{
    if n > 0 {
        lemma_lines_scan_start(s, (n - 1) as nat);
    }
}

fn strip_cr_exec<'a>(x: &'a str) -> (r: &'a str)
    ensures
        r@ == strip_cr(x@),
{
    let n = x.unicode_len();
    if n > 0 && x.get_char(n - 1) == '\r' {
        x.substring_char(0, n - 1)
    } else {
        x
    }
}

/// The lines of `s` (see [`lines`]).
pub fn text_lines<'a>(s: &'a str) -> (r: Vec<&'a str>)
    ensures
        slices_view(r@) == lines(s@),
{
    let n = s.unicode_len();
    let mut out: Vec<&'a str> = Vec::new();
    let mut start: usize = 0;
    let mut i: usize = 0;
    while i < n
        invariant
            n == s@.len(),
            i <= n,
            start <= i,
            (slices_view(out@), start as int) == lines_scan(s@, i as nat),
        decreases n - i,
    {
        if s.get_char(i) == '\n' {
            let ghost before = slices_view(out@);
            out.push(strip_cr_exec(s.substring_char(start, i)));
            assert(slices_view(out@) =~= before.push(strip_cr(s@.subrange(start as int, i as int))));
            start = i + 1;
        }
        i += 1;
    }
    if start < n {
        let ghost before = slices_view(out@);
        out.push(s.substring_char(start, n));
        assert(slices_view(out@) =~= before.push(s@.subrange(start as int, n as int)));
    }
    out
}

// ── names ─────────────────────────────────────────────────────────────

/// Lua reserved keywords, which must be quoted in field names.
pub open spec fn is_lua_keyword(s: Seq<char>) -> bool {
    ||| s == "and"@
    ||| s == "break"@
    ||| s == "do"@
    ||| s == "else"@
    ||| s == "elseif"@
    ||| s == "end"@
    ||| s == "false"@
    ||| s == "for"@
    ||| s == "function"@
    ||| s == "goto"@
    ||| s == "if"@
    ||| s == "in"@
    ||| s == "local"@
    ||| s == "nil"@
    ||| s == "not"@
    ||| s == "or"@
    ||| s == "repeat"@
    ||| s == "return"@
    ||| s == "then"@
    ||| s == "true"@
    ||| s == "until"@
    ||| s == "while"@
}

fn is_lua_keyword_exec(s: &str) -> (r: bool)
    ensures
        r == is_lua_keyword(s@),
{
    str_eq(s, "and") || str_eq(s, "break") || str_eq(s, "do") || str_eq(s, "else") || str_eq(
        s,
        "elseif",
    ) || str_eq(s, "end") || str_eq(s, "false") || str_eq(s, "for") || str_eq(s, "function")
        || str_eq(s, "goto") || str_eq(s, "if") || str_eq(s, "in") || str_eq(s, "local")
        || str_eq(s, "nil") || str_eq(s, "not") || str_eq(s, "or") || str_eq(s, "repeat")
        || str_eq(s, "return") || str_eq(s, "then") || str_eq(s, "true") || str_eq(s, "until")
        || str_eq(s, "while")
}

pub open spec fn is_ascii_alpha(c: char) -> bool {
    ('a' <= c && c <= 'z') || ('A' <= c && c <= 'Z')
}

pub open spec fn is_ascii_alnum(c: char) -> bool {
    is_ascii_alpha(c) || ('0' <= c && c <= '9')
}

/// A Lua identifier: a letter or `_`, then letters, digits and `_`.
pub open spec fn is_lua_ident_text(s: Seq<char>) -> bool {
    &&& s.len() > 0
    &&& (is_ascii_alpha(s[0]) || s[0] == '_')
    &&& forall|i: int| 1 <= i < s.len() ==> is_ascii_alnum(#[trigger] s[i]) || s[i] == '_'
}

/// Check if a string is a valid Lua identifier (non-empty, starts with
/// letter/_, rest alphanumeric/_).
pub fn is_lua_ident(s: &str) -> (r: bool)
    ensures
        r == is_lua_ident_text(s@),
{
    let n = s.unicode_len();
    if n == 0 {
        return false;
    }
    let c0 = s.get_char(0);
    if !(('a' <= c0 && c0 <= 'z') || ('A' <= c0 && c0 <= 'Z') || c0 == '_') {
        return false;
    }
    let mut i: usize = 1;
    while i < n
        invariant
            n == s@.len(),
            1 <= i <= n,
            forall|j: int| 1 <= j < i ==> is_ascii_alnum(#[trigger] s@[j]) || s@[j] == '_',
        decreases n - i,
    {
        let c = s.get_char(i);
        if !(('a' <= c && c <= 'z') || ('A' <= c && c <= 'Z') || ('0' <= c && c <= '9') || c
            == '_') {
            return false;
        }
        i += 1;
    }
    true
}

pub open spec fn needs_quoting(name: Seq<char>) -> bool {
    is_lua_keyword(name) || !is_lua_ident_text(name)
}

pub open spec fn bracket_quoted(name: Seq<char>) -> Seq<char> {
    "[\""@ + name + "\"]"@
}

/// A field name, quoted when it is a Lua keyword or not an identifier.
pub open spec fn field_name_text(name: Seq<char>) -> Seq<char> {
    if needs_quoting(name) {
        bracket_quoted(name)
    } else {
        name
    }
}

/// A method name after its separator, or quoted when it is a Lua keyword
/// or not an identifier.
pub open spec fn method_name_text(name: Seq<char>, sep: Seq<char>) -> Seq<char> {
    if needs_quoting(name) {
        bracket_quoted(name)
    } else {
        sep + name
    }
}

fn needs_quoting_exec(name: &str) -> (r: bool)
    ensures
        r == needs_quoting(name@),
{
    is_lua_keyword_exec(name) || !is_lua_ident(name)
}

fn bracket_quoted_exec(name: &str) -> (r: String)
    ensures
        r@ == bracket_quoted(name@),
{
    let mut out = owned("[\"");
    out.append(name);
    out.append("\"]");
    out
}

/// Format a field name, quoting it if it's a Lua keyword or not a valid
/// identifier.
pub fn format_field_name(name: &str) -> (r: String)
    ensures
        r@ == field_name_text(name@),
{
    if needs_quoting_exec(name) {
        bracket_quoted_exec(name)
    } else {
        owned(name)
    }
}

/// Format a method/function name, quoting Lua keywords as `["name"]`.
pub fn format_method_name(name: &str, sep: &str) -> (r: String)
    ensures
        r@ == method_name_text(name@, sep@),
{
    if needs_quoting_exec(name) {
        bracket_quoted_exec(name)
    } else {
        let mut out = owned(sep);
        out.append(name);
        out
    }
}

pub open spec fn kind_sep(kind: MethodKind) -> Seq<char> {
    match kind {
        MethodKind::Method => ":"@,
        MethodKind::Function => "."@,
    }
}

fn kind_sep_exec(kind: MethodKind) -> (r: &'static str)
    ensures
        r@ == kind_sep(kind),
{
    match kind {
        MethodKind::Method => ":",
        MethodKind::Function => ".",
    }
}

// ── docs, params, returns ─────────────────────────────────────────────

pub open spec fn doc_line_text(line: Seq<char>) -> Seq<char> {
    if line.len() == 0 {
        "---\n"@
    } else {
        "--- "@ + line + "\n"@
    }
}

pub open spec fn doc_lines_text(ls: Seq<Seq<char>>, n: nat) -> Seq<char>
    decreases n,
{
    if n == 0 {
        Seq::empty()
    } else {
        doc_lines_text(ls, (n - 1) as nat) + doc_line_text(ls[n - 1])
    }
}

/// Doc comment lines written as `--- text` (`---` for a blank line).
pub open spec fn doc_text(doc: Option<String>) -> Seq<char> {
    match doc {
        Some(d) => doc_lines_text(lines(d@), lines(d@).len()),
        None => Seq::empty(),
    }
}

/// Write doc comment lines as `--- text`.
pub fn write_doc(out: &mut String, doc: &Option<String>)
    ensures
        final(out)@ == old(out)@ + doc_text(*doc),
{
    if let Some(d) = doc {
        let ls = text_lines(d.as_str());
        let ghost lv = slices_view(ls@);
        let ghost base = out@;
        let mut i: usize = 0;
        while i < ls.len()
            invariant
                lv == slices_view(ls@),
                i <= ls.len(),
                out@ == base + doc_lines_text(lv, i as nat),
            decreases ls.len() - i,
        {
            let line = ls[i];
            assert(lv[i as int] == line@);
            if line.unicode_len() == 0 {
                out.append("---\n");
            } else {
                out.append("--- ");
                out.append(line);
                out.append("\n");
            }
            i += 1;
        }
    }
}

pub open spec fn param_ann_text(p: LuaParam) -> Seq<char> {
    match p.ty@ {
        LuaTy::Nil => Seq::empty(),
        LuaTy::Variadic(inner) => "---@param ... "@ + ty_text(*inner) + "\n"@,
        t => "---@param "@ + p.name@ + " "@ + ty_text(t) + "\n"@,
    }
}

pub open spec fn params_ann_text(ps: Seq<LuaParam>, n: nat) -> Seq<char>
    decreases n,
{
    if n == 0 {
        Seq::empty()
    } else {
        params_ann_text(ps, (n - 1) as nat) + param_ann_text(ps[n - 1])
    }
}

/// Write `---@param` annotations, with special handling for variadic
/// params; `nil` params are skipped.
pub fn write_params(out: &mut String, params: &Vec<LuaParam>)
    ensures
        final(out)@ == old(out)@ + params_ann_text(params@, params@.len()),
{
    let ghost base = out@;
    let mut i: usize = 0;
    while i < params.len()
        invariant
            i <= params.len(),
            out@ == base + params_ann_text(params@, i as nat),
        decreases params.len() - i,
    {
        let p = &params[i];
        match &p.ty {
            LuaType::Nil => {},
            LuaType::Variadic(inner) => {
                out.append("---@param ... ");
                let t = inner.to_string();
                out.append(t.as_str());
                out.append("\n");
            },
            other => {
                out.append("---@param ");
                out.append(p.name.as_str());
                out.append(" ");
                let t = other.to_string();
                out.append(t.as_str());
                out.append("\n");
            },
        }
        i += 1;
    }
}

/// Whether a return type is an error, which Lua throws rather than returns.
pub open spec fn is_error_type(t: LuaTy) -> bool {
    t matches LuaTy::Class(name) && (name == "Error"@ || name == "LuaError"@ || ends_with(
        name,
        "::Error"@,
    ) || ends_with(name, "::LuaError"@))
}

/// Returns true if a type represents an error that shouldn't be a return
/// annotation.
pub fn is_error_return(ty: &LuaType) -> (r: bool)
    ensures
        r == is_error_type(ty@),
{
    match ty {
        LuaType::Class(name) => {
            let s = name.as_str();
            str_eq(s, "Error") || str_eq(s, "LuaError") || ends_with_exec(s, "::Error")
                || ends_with_exec(s, "::LuaError")
        },
        _ => false,
    }
}

pub open spec fn return_ann_text(r: LuaReturn) -> Seq<char> {
    if is_error_type(r.ty@) {
        Seq::empty()
    } else {
        match r.name {
            Some(name) => "---@return "@ + ty_text(r.ty@) + " "@ + name@ + "\n"@,
            None => "---@return "@ + ty_text(r.ty@) + "\n"@,
        }
    }
}

pub open spec fn returns_ann_text(rs: Seq<LuaReturn>, n: nat) -> Seq<char>
    decreases n,
{
    if n == 0 {
        Seq::empty()
    } else {
        returns_ann_text(rs, (n - 1) as nat) + return_ann_text(rs[n - 1])
    }
}

/// Write `---@return` annotations for multiple return values; error types
/// are skipped.
pub fn write_returns(out: &mut String, rets: &Vec<LuaReturn>)
    ensures
        final(out)@ == old(out)@ + returns_ann_text(rets@, rets@.len()),
{
    let ghost base = out@;
    let mut i: usize = 0;
    while i < rets.len()
        invariant
            i <= rets.len(),
            out@ == base + returns_ann_text(rets@, i as nat),
        decreases rets.len() - i,
    {
        let r = &rets[i];
        if !is_error_return(&r.ty) {
            out.append("---@return ");
            let t = r.ty.to_string();
            out.append(t.as_str());
            match &r.name {
                Some(name) => {
                    out.append(" ");
                    out.append(name.as_str());
                    out.append("\n");
                },
                None => {
                    out.append("\n");
                },
            }
        }
        i += 1;
    }
}

pub open spec fn any_param_kept(ps: Seq<LuaParam>, n: nat) -> bool
    decreases n,
{
    n > 0 && (any_param_kept(ps, (n - 1) as nat) || !(ps[n - 1].ty@ is Nil))
}

pub open spec fn param_name_text(p: LuaParam) -> Seq<char> {
    if p.ty@ is Variadic {
        "..."@
    } else {
        p.name@
    }
}

/// The names of the first `n` params, `nil` ones left out, joined by `, `.
pub open spec fn params_str_text(ps: Seq<LuaParam>, n: nat) -> Seq<char>
    decreases n,
{
    if n == 0 {
        Seq::empty()
    } else {
        let prev = params_str_text(ps, (n - 1) as nat);
        let p = ps[n - 1];
        if p.ty@ is Nil {
            prev
        } else if any_param_kept(ps, (n - 1) as nat) {
            prev + ", "@ + param_name_text(p)
        } else {
            prev + param_name_text(p)
        }
    }
}

/// Convert params to the function signature string, replacing variadic
/// params with `...`.
pub fn params_to_str(params: &Vec<LuaParam>) -> (r: String)
    ensures
        r@ == params_str_text(params@, params@.len()),
{
    let mut out = String::new();
    let mut any = false;
    let mut i: usize = 0;
    while i < params.len()
        invariant
            i <= params.len(),
            out@ == params_str_text(params@, i as nat),
            any == any_param_kept(params@, i as nat),
        decreases params.len() - i,
    {
        let p = &params[i];
        let is_nil = match &p.ty {
            LuaType::Nil => true,
            _ => false,
        };
        if !is_nil {
            if any {
                out.append(", ");
            }
            match &p.ty {
                LuaType::Variadic(_) => out.append("..."),
                _ => out.append(p.name.as_str()),
            }
            any = true;
        }
        i += 1;
    }
    out
}

pub open spec fn param_sig_item(p: LuaParam) -> Seq<char> {
    match p.ty@ {
        LuaTy::Variadic(inner) => "...: "@ + ty_text(*inner),
        t => p.name@ + ": "@ + ty_text(t),
    }
}

/// The typed params of an `@overload` signature, `nil` ones left out.
pub open spec fn params_sig_text(ps: Seq<LuaParam>, n: nat) -> Seq<char>
    decreases n,
{
    if n == 0 {
        Seq::empty()
    } else {
        let prev = params_sig_text(ps, (n - 1) as nat);
        let p = ps[n - 1];
        if p.ty@ is Nil {
            prev
        } else if any_param_kept(ps, (n - 1) as nat) {
            prev + ", "@ + param_sig_item(p)
        } else {
            prev + param_sig_item(p)
        }
    }
}

fn params_sig(params: &Vec<LuaParam>) -> (r: String)
    ensures
        r@ == params_sig_text(params@, params@.len()),
{
    let mut out = String::new();
    let mut any = false;
    let mut i: usize = 0;
    while i < params.len()
        invariant
            i <= params.len(),
            out@ == params_sig_text(params@, i as nat),
            any == any_param_kept(params@, i as nat),
        decreases params.len() - i,
    {
        let p = &params[i];
        let is_nil = match &p.ty {
            LuaType::Nil => true,
            _ => false,
        };
        if !is_nil {
            if any {
                out.append(", ");
            }
            match &p.ty {
                LuaType::Variadic(inner) => {
                    out.append("...: ");
                    let t = inner.to_string();
                    out.append(t.as_str());
                },
                other => {
                    out.append(p.name.as_str());
                    out.append(": ");
                    let t = other.to_string();
                    out.append(t.as_str());
                },
            }
            any = true;
        }
        i += 1;
    }
    out
}

pub open spec fn rets_join_text(rs: Seq<LuaReturn>, n: nat) -> Seq<char>
    decreases n,
{
    if n == 0 {
        Seq::empty()
    } else if n == 1 {
        ty_text(rs[0].ty@)
    } else {
        rets_join_text(rs, (n - 1) as nat) + ", "@ + ty_text(rs[n - 1].ty@)
    }
}

/// `: T1, T2` for the return types of an `@overload` signature, or nothing.
pub open spec fn ret_sig_text(rs: Seq<LuaReturn>) -> Seq<char> {
    if rs.len() == 0 {
        Seq::empty()
    } else {
        ": "@ + rets_join_text(rs, rs.len())
    }
}

fn ret_sig(rets: &Vec<LuaReturn>) -> (r: String)
    ensures
        r@ == ret_sig_text(rets@),
{
    if rets.len() == 0 {
        return String::new();
    }
    let mut out = owned(": ");
    let ghost base = out@;
    let mut i: usize = 0;
    while i < rets.len()
        invariant
            i <= rets.len(),
            base == ": "@,
            out@ == base + rets_join_text(rets@, i as nat),
        decreases rets.len() - i,
    {
        if i > 0 {
            out.append(", ");
        }
        let t = rets[i].ty.to_string();
        out.append(t.as_str());
        proof {
            if i == 0 {
                assert(base + rets_join_text(rets@, 1) =~= base + Seq::<char>::empty() + t@);
            }
        }
        i += 1;
    }
    out
}

/// One `---@overload fun(...)` line.
pub open spec fn overload_line_text(ps: Seq<LuaParam>, rs: Seq<LuaReturn>) -> Seq<char> {
    "---@overload fun("@ + params_sig_text(ps, ps.len()) + ")"@ + ret_sig_text(rs) + "\n"@
}

fn write_overload_line(out: &mut String, params: &Vec<LuaParam>, rets: &Vec<LuaReturn>)
    ensures
        final(out)@ == old(out)@ + overload_line_text(params@, rets@),
{
    let ps = params_sig(params);
    let rs = ret_sig(rets);
    out.append("---@overload fun(");
    out.append(ps.as_str());
    out.append(")");
    out.append(rs.as_str());
    out.append("\n");
}

/// The `function Owner<sep><name>(params) end` line.
pub open spec fn function_line_text(owner: Seq<char>, name_part: Seq<char>, ps: Seq<LuaParam>) -> Seq<
    char,
> {
    "function "@ + owner + name_part + "("@ + params_str_text(ps, ps.len()) + ") end\n"@
}

fn write_function_line(out: &mut String, owner: &str, name_part: &str, params: &Vec<LuaParam>)
    ensures
        final(out)@ == old(out)@ + function_line_text(owner@, name_part@, params@),
{
    let ps = params_to_str(params);
    out.append("function ");
    out.append(owner);
    out.append(name_part);
    out.append("(");
    out.append(ps.as_str());
    out.append(") end\n");
}

pub open spec fn async_text(is_async: bool) -> Seq<char> {
    if is_async {
        "---@async\n"@
    } else {
        Seq::empty()
    }
}

// ── fields ────────────────────────────────────────────────────────────

/// The first line of a doc text, or nothing.
pub open spec fn first_line(d: Seq<char>) -> Seq<char> {
    if lines(d).len() > 0 {
        lines(d)[0]
    } else {
        Seq::empty()
    }
}

/// A field type, with `Enum<T>` written as `TActions` so that enum
/// constructors complete.
pub open spec fn field_type_text(t: LuaTy) -> Seq<char> {
    let s = ty_text(t);
    if s.len() >= 6 && s.subrange(0, 5) == "Enum<"@ && s.last() == '>' {
        s.subrange(5, s.len() - 1) + "Actions"@
    } else {
        s
    }
}

/// If a type is `Enum<T>`, resolve it to `TActions` for enum constructor
/// autocomplete.
pub fn resolve_enum_constructor_type(ty: &LuaType) -> (r: String)
    ensures
        r@ == field_type_text(ty@),
{
    let s = ty.to_string();
    let t = s.as_str();
    let n = t.unicode_len();
    proof {
        reveal_strlit("Enum<");
    }
    if n >= 6 && starts_with_exec(t, "Enum<") && t.get_char(n - 1) == '>' {
        let mut out = owned(t.substring_char(5, n - 1));
        out.append("Actions");
        out
    } else {
        s
    }
}

pub open spec fn field_text(f: LuaField) -> Seq<char> {
    "---@field "@ + field_name_text(f.name@) + " "@ + field_type_text(f.ty@) + (if f.writable {
        Seq::empty()
    } else {
        " (readonly)"@
    }) + match f.doc {
        Some(d) => " "@ + first_line(d@),
        None => Seq::empty(),
    } + "\n"@
}

pub open spec fn fields_text(fs: Seq<LuaField>, n: nat) -> Seq<char>
    decreases n,
{
    if n == 0 {
        Seq::empty()
    } else {
        fields_text(fs, (n - 1) as nat) + field_text(fs[n - 1])
    }
}

pub fn write_field(out: &mut String, field: &LuaField)
    ensures
        final(out)@ == old(out)@ + field_text(*field),
{
    let name = format_field_name(field.name.as_str());
    let ty = resolve_enum_constructor_type(&field.ty);
    out.append("---@field ");
    out.append(name.as_str());
    out.append(" ");
    out.append(ty.as_str());
    if !field.writable {
        out.append(" (readonly)");
    }
    match &field.doc {
        Some(doc) => {
            let ls = text_lines(doc.as_str());
            out.append(" ");
            if ls.len() > 0 {
                assert(slices_view(ls@)[0] == ls[0]@);
                out.append(ls[0]);
            }
        },
        None => {},
    }
    out.append("\n");
}

fn write_fields(out: &mut String, fields: &Vec<LuaField>)
    ensures
        final(out)@ == old(out)@ + fields_text(fields@, fields@.len()),
{
    let ghost base = out@;
    let mut i: usize = 0;
    while i < fields.len()
        invariant
            i <= fields.len(),
            out@ == base + fields_text(fields@, i as nat),
        decreases fields.len() - i,
    {
        write_field(out, &fields[i]);
        i += 1;
    }
}

// ── methods ───────────────────────────────────────────────────────────

pub open spec fn method_count(ms: Seq<LuaMethod>, name: Seq<char>, n: nat) -> nat
    decreases n,
{
    if n == 0 {
        0
    } else {
        method_count(ms, name, (n - 1) as nat) + if ms[n - 1].name@ == name {
            1nat
        } else {
            0nat
        }
    }
}

pub open spec fn method_named_before(ms: Seq<LuaMethod>, name: Seq<char>, n: nat) -> bool
    decreases n,
{
    n > 0 && (method_named_before(ms, name, (n - 1) as nat) || ms[n - 1].name@ == name)
}

pub open spec fn method_text(class: Seq<char>, m: LuaMethod) -> Seq<char> {
    doc_text(m.doc) + async_text(m.is_async) + params_ann_text(m.params@, m.params@.len())
        + returns_ann_text(m.returns@, m.returns@.len()) + function_line_text(
        class,
        method_name_text(m.name@, kind_sep(m.kind)),
        m.params@,
    )
}

pub open spec fn method_overloads_text(ms: Seq<LuaMethod>, name: Seq<char>, n: nat) -> Seq<char>
    decreases n,
{
    if n == 0 {
        Seq::empty()
    } else {
        method_overloads_text(ms, name, (n - 1) as nat) + if ms[n - 1].name@ == name {
            overload_line_text(ms[n - 1].params@, ms[n - 1].returns@)
        } else {
            Seq::empty()
        }
    }
}

/// All overloads of the method named like `ms[i]`, which is the first of
/// them: the first one's doc, an `@overload` line each, and the first
/// one's stub.
pub open spec fn overloaded_method_text(class: Seq<char>, ms: Seq<LuaMethod>, i: int) -> Seq<char> {
    let first = ms[i];
    doc_text(first.doc) + method_overloads_text(ms, first.name@, ms.len()) + function_line_text(
        class,
        method_name_text(first.name@, kind_sep(first.kind)),
        first.params@,
    )
}

pub open spec fn method_item_text(class: Seq<char>, ms: Seq<LuaMethod>, i: int) -> Seq<char> {
    if method_count(ms, ms[i].name@, ms.len()) > 1 {
        if !method_named_before(ms, ms[i].name@, i as nat) {
            "\n"@ + overloaded_method_text(class, ms, i)
        } else {
            Seq::empty()
        }
    } else {
        "\n"@ + method_text(class, ms[i])
    }
}

pub open spec fn methods_text(class: Seq<char>, ms: Seq<LuaMethod>, n: nat) -> Seq<char>
    decreases n,
{
    if n == 0 {
        Seq::empty()
    } else {
        methods_text(class, ms, (n - 1) as nat) + method_item_text(class, ms, n - 1)
    }
}

pub fn write_method(out: &mut String, class_name: &str, method: &LuaMethod, _target: CodegenTarget)
    ensures
        final(out)@ == old(out)@ + method_text(class_name@, *method),
{
    write_doc(out, &method.doc);
    if method.is_async {
        out.append("---@async\n");
    }
    write_params(out, &method.params);
    write_returns(out, &method.returns);
    let escaped = format_method_name(method.name.as_str(), kind_sep_exec(method.kind));
    write_function_line(out, class_name, escaped.as_str(), &method.params);
}

/// Writes all overloads of the method at `first`, which is the first
/// method of that name.
pub fn write_overloaded_method(
    out: &mut String,
    class_name: &str,
    all_methods: &Vec<LuaMethod>,
    first: usize,
    _target: CodegenTarget,
)
    requires
        first < all_methods.len(),
        forall|j: int| 0 <= j < first ==> all_methods@[j].name@ != all_methods@[first as int].name@,
    ensures
        final(out)@ == old(out)@ + overloaded_method_text(class_name@, all_methods@, first as int),
{
    let m = &all_methods[first];
    write_doc(out, &m.doc);
    let ghost base = out@;
    let mut i: usize = 0;
    while i < all_methods.len()
        invariant
            first < all_methods.len(),
            i <= all_methods.len(),
            out@ == base + method_overloads_text(
                all_methods@,
                all_methods@[first as int].name@,
                i as nat,
            ),
        decreases all_methods.len() - i,
    {
        if all_methods[i].name == all_methods[first].name {
            write_overload_line(out, &all_methods[i].params, &all_methods[i].returns);
        }
        i += 1;
    }
    let escaped = format_method_name(m.name.as_str(), kind_sep_exec(m.kind));
    write_function_line(out, class_name, escaped.as_str(), &m.params);
}

proof fn lemma_method_none_before(ms: Seq<LuaMethod>, name: Seq<char>, n: nat)
    requires
        n <= ms.len(),
        !method_named_before(ms, name, n),
    ensures
        forall|j: int| 0 <= j < n ==> ms[j].name@ != name,
    decreases n,
{
    if n > 0 {
        lemma_method_none_before(ms, name, (n - 1) as nat);
    }
}

proof fn lemma_function_none_before(fs: Seq<LuaFunction>, name: Seq<char>, n: nat)
    requires
        n <= fs.len(),
        !function_named_before(fs, name, n),
    ensures
        forall|j: int| 0 <= j < n ==> fs[j].name@ != name,
    decreases n,
{
    if n > 0 {
        lemma_function_none_before(fs, name, (n - 1) as nat);
    }
}

fn count_methods_named(ms: &Vec<LuaMethod>, k: usize) -> (r: (usize, bool))
    requires
        k < ms.len(),
    ensures
        r.0 == method_count(ms@, ms@[k as int].name@, ms@.len()),
        r.1 == method_named_before(ms@, ms@[k as int].name@, k as nat),
{
    let mut count: usize = 0;
    let mut before = false;
    let mut i: usize = 0;
    while i < ms.len()
        invariant
            k < ms.len(),
            i <= ms.len(),
            count == method_count(ms@, ms@[k as int].name@, i as nat),
            count <= i,
            i <= k ==> before == method_named_before(ms@, ms@[k as int].name@, i as nat),
            i > k ==> before == method_named_before(ms@, ms@[k as int].name@, k as nat),
        decreases ms.len() - i,
    {
        if ms[i].name == ms[k].name {
            count = count + 1;
            if i < k {
                before = true;
            }
        }
        i += 1;
    }
    (count, before)
}

fn write_methods(out: &mut String, class_name: &str, methods: &Vec<LuaMethod>, target: CodegenTarget)
    ensures
        final(out)@ == old(out)@ + methods_text(class_name@, methods@, methods@.len()),
{
    let ghost base = out@;
    let mut i: usize = 0;
    while i < methods.len()
        invariant
            i <= methods.len(),
            out@ == base + methods_text(class_name@, methods@, i as nat),
        decreases methods.len() - i,
    {
        let ghost before_item = out@;
        write_method_item(out, class_name, methods, i, target);
        assert(out@ == base + methods_text(class_name@, methods@, (i + 1) as nat)) by {
            assert(before_item + method_item_text(class_name@, methods@, i as int) =~= base + (
            methods_text(class_name@, methods@, i as nat) + method_item_text(
                class_name@,
                methods@,
                i as int,
            )));
        }
        i += 1;
    }
}

/// Writes the entry of the method at `i`: its stub, or all overloads of
/// its name where it is the first of several, or nothing where an earlier
/// method of that name wrote them.
fn write_method_item(
    out: &mut String,
    class_name: &str,
    methods: &Vec<LuaMethod>,
    i: usize,
    target: CodegenTarget,
)
    requires
        i < methods.len(),
    ensures
        final(out)@ == old(out)@ + method_item_text(class_name@, methods@, i as int),
{
    let (count, before) = count_methods_named(methods, i);
    if count > 1 {
        if !before {
            out.append("\n");
            proof {
                lemma_method_none_before(methods@, methods@[i as int].name@, i as nat);
            }
            write_overloaded_method(out, class_name, methods, i, target);
        } else {
            assert(old(out)@ =~= old(out)@ + Seq::<char>::empty());
        }
    } else {
        out.append("\n");
        write_method(out, class_name, &methods[i], target);
    }
}

// ── classes, enums, modules, globals ─────────────────────────────────

pub open spec fn class_header_text(name: Seq<char>, target: CodegenTarget) -> Seq<char> {
    match target {
        CodegenTarget::LuaLS => "---@class "@ + name + "\n"@,
        CodegenTarget::EmmyLua => "---@class (exact) "@ + name + "\n"@,
    }
}

pub open spec fn class_head_text(c: LuaClass, target: CodegenTarget) -> Seq<char> {
    doc_text(c.doc) + class_header_text(c.name@, target) + fields_text(c.fields@, c.fields@.len())
        + "local "@ + before_first(c.name@, "<"@) + " = {}\n"@
}

#[verifier::opaque]
pub open spec fn class_text(c: LuaClass, target: CodegenTarget) -> Seq<char> {
    class_head_text(c, target) + methods_text(
        before_first(c.name@, "<"@),
        c.methods@,
        c.methods@.len(),
    )
}

fn write_class_head(out: &mut String, class: &LuaClass, target: CodegenTarget)
    ensures
        final(out)@ == old(out)@ + class_head_text(*class, target),
{
    write_doc(out, &class.doc);
    let class_decl = class.name.as_str();
    let class_value = before_first_exec(class_decl, "<");
    match target {
        CodegenTarget::LuaLS => {
            out.append("---@class ");
        },
        CodegenTarget::EmmyLua => {
            out.append("---@class (exact) ");
        },
    }
    out.append(class_decl);
    out.append("\n");
    write_fields(out, &class.fields);
    out.append("local ");
    out.append(class_value);
    out.append(" = {}\n");
}

pub fn write_class(out: &mut String, class: &LuaClass, target: CodegenTarget)
    ensures
        final(out)@ == old(out)@ + class_text(*class, target),
{
    reveal(class_text);
    write_class_head(out, class, target);
    let class_value = before_first_exec(class.name.as_str(), "<");
    write_methods(out, class_value, &class.methods, target);
}

pub open spec fn variants_text(vs: Seq<String>, n: nat) -> Seq<char>
    decreases n,
{
    if n == 0 {
        Seq::empty()
    } else if n == 1 {
        quoted(vs[0]@)
    } else {
        variants_text(vs, (n - 1) as nat) + " | "@ + quoted(vs[n - 1]@)
    }
}

pub open spec fn pascal_fields_text(name: Seq<char>, vs: Seq<String>, n: nat) -> Seq<char>
    decreases n,
{
    if n == 0 {
        Seq::empty()
    } else {
        pascal_fields_text(name, vs, (n - 1) as nat) + "---@field "@ + vs[n - 1]@ + " "@ + name
            + " | EnumVariant\n"@
    }
}

#[verifier::opaque]
pub open spec fn enum_text(e: LuaEnum) -> Seq<char> {
    doc_text(e.doc) + "---@alias "@ + e.name@ + " "@ + variants_text(e.variants@, e.variants@.len())
        + "\n"@ + if e.pascal_variants@.len() > 0 {
        "\n"@ + "---@class "@ + e.name@ + "Actions\n"@ + pascal_fields_text(
            e.name@,
            e.pascal_variants@,
            e.pascal_variants@.len(),
        )
    } else {
        Seq::empty()
    }
}

pub fn write_enum(out: &mut String, e: &LuaEnum, _target: CodegenTarget)
    ensures
        final(out)@ == old(out)@ + enum_text(*e),
{
    reveal(enum_text);
    write_doc(out, &e.doc);
    out.append("---@alias ");
    out.append(e.name.as_str());
    out.append(" ");
    let ghost base = out@;
    let mut i: usize = 0;
    while i < e.variants.len()
        invariant
            i <= e.variants.len(),
            out@ == base + variants_text(e.variants@, i as nat),
        decreases e.variants.len() - i,
    {
        if i > 0 {
            out.append(" | ");
        }
        out.append("\"");
        out.append(e.variants[i].as_str());
        out.append("\"");
        proof {
            if i == 0 {
                assert(variants_text(e.variants@, 1) =~= Seq::<char>::empty() + quoted(
                    e.variants@[0]@,
                ));
            }
        }
        i += 1;
    }
    out.append("\n");
    if e.pascal_variants.len() > 0 {
        out.append("\n");
        out.append("---@class ");
        out.append(e.name.as_str());
        out.append("Actions\n");
        let ghost base2 = out@;
        let mut j: usize = 0;
        while j < e.pascal_variants.len()
            invariant
                j <= e.pascal_variants.len(),
                out@ == base2 + pascal_fields_text(e.name@, e.pascal_variants@, j as nat),
            decreases e.pascal_variants.len() - j,
        {
            out.append("---@field ");
            out.append(e.pascal_variants[j].as_str());
            out.append(" ");
            out.append(e.name.as_str());
            out.append(" | EnumVariant\n");
            j += 1;
        }
    }
}

pub open spec fn function_count(fs: Seq<LuaFunction>, name: Seq<char>, n: nat) -> nat
    decreases n,
{
    if n == 0 {
        0
    } else {
        function_count(fs, name, (n - 1) as nat) + if fs[n - 1].name@ == name {
            1nat
        } else {
            0nat
        }
    }
}

pub open spec fn function_named_before(fs: Seq<LuaFunction>, name: Seq<char>, n: nat) -> bool
    decreases n,
{
    n > 0 && (function_named_before(fs, name, (n - 1) as nat) || fs[n - 1].name@ == name)
}

pub open spec fn function_overloads_text(fs: Seq<LuaFunction>, name: Seq<char>, n: nat) -> Seq<char>
    decreases n,
{
    if n == 0 {
        Seq::empty()
    } else {
        function_overloads_text(fs, name, (n - 1) as nat) + if fs[n - 1].name@ == name {
            overload_line_text(fs[n - 1].params@, fs[n - 1].returns@)
        } else {
            Seq::empty()
        }
    }
}

pub open spec fn overloaded_function_text(ns: Seq<char>, fs: Seq<LuaFunction>, i: int) -> Seq<char> {
    let first = fs[i];
    doc_text(first.doc) + function_overloads_text(fs, first.name@, fs.len()) + function_line_text(
        ns,
        method_name_text(first.name@, "."@),
        first.params@,
    )
}

/// The stub of a function in a module namespace.
pub open spec fn namespaced_function_text(ns: Seq<char>, f: LuaFunction) -> Seq<char> {
    doc_text(f.doc) + async_text(f.is_async) + params_ann_text(f.params@, f.params@.len())
        + returns_ann_text(f.returns@, f.returns@.len()) + function_line_text(
        ns,
        method_name_text(f.name@, "."@),
        f.params@,
    )
}

pub open spec fn function_item_text(ns: Seq<char>, fs: Seq<LuaFunction>, i: int) -> Seq<char> {
    if function_count(fs, fs[i].name@, fs.len()) > 1 {
        if !function_named_before(fs, fs[i].name@, i as nat) {
            "\n"@ + overloaded_function_text(ns, fs, i)
        } else {
            Seq::empty()
        }
    } else {
        "\n"@ + namespaced_function_text(ns, fs[i])
    }
}

pub open spec fn functions_text(ns: Seq<char>, fs: Seq<LuaFunction>, n: nat) -> Seq<char>
    decreases n,
{
    if n == 0 {
        Seq::empty()
    } else {
        functions_text(ns, fs, (n - 1) as nat) + function_item_text(ns, fs, n - 1)
    }
}

#[verifier::opaque]
pub open spec fn module_text(m: LuaModule) -> Seq<char> {
    doc_text(m.doc) + "---@class "@ + m.name@ + "\n"@ + fields_text(m.fields@, m.fields@.len())
        + m.name@ + " = {}\n"@ + functions_text(m.name@, m.functions@, m.functions@.len())
}

pub fn write_namespaced_function(
    out: &mut String,
    namespace: &str,
    func: &LuaFunction,
    _target: CodegenTarget,
)
    ensures
        final(out)@ == old(out)@ + namespaced_function_text(namespace@, *func),
{
    write_doc(out, &func.doc);
    if func.is_async {
        out.append("---@async\n");
    }
    write_params(out, &func.params);
    write_returns(out, &func.returns);
    let escaped = format_method_name(func.name.as_str(), ".");
    write_function_line(out, namespace, escaped.as_str(), &func.params);
}

/// Writes all overloads of the function at `first`, which is the first
/// function of that name.
pub fn write_overloaded_function(
    out: &mut String,
    namespace: &str,
    all_functions: &Vec<LuaFunction>,
    first: usize,
    _target: CodegenTarget,
)
    requires
        first < all_functions.len(),
        forall|j: int| 0 <= j < first ==> all_functions@[j].name@ != all_functions@[first as int].name@,
    ensures
        final(out)@ == old(out)@ + overloaded_function_text(
            namespace@,
            all_functions@,
            first as int,
        ),
{
    let f = &all_functions[first];
    write_doc(out, &f.doc);
    let ghost base = out@;
    let mut i: usize = 0;
    while i < all_functions.len()
        invariant
            first < all_functions.len(),
            i <= all_functions.len(),
            out@ == base + function_overloads_text(
                all_functions@,
                all_functions@[first as int].name@,
                i as nat,
            ),
        decreases all_functions.len() - i,
    {
        if all_functions[i].name == all_functions[first].name {
            write_overload_line(out, &all_functions[i].params, &all_functions[i].returns);
        }
        i += 1;
    }
    let escaped = format_method_name(f.name.as_str(), ".");
    write_function_line(out, namespace, escaped.as_str(), &f.params);
}

fn count_functions_named(fs: &Vec<LuaFunction>, k: usize) -> (r: (usize, bool))
    requires
        k < fs.len(),
    ensures
        r.0 == function_count(fs@, fs@[k as int].name@, fs@.len()),
        r.1 == function_named_before(fs@, fs@[k as int].name@, k as nat),
{
    let mut count: usize = 0;
    let mut before = false;
    let mut i: usize = 0;
    while i < fs.len()
        invariant
            k < fs.len(),
            i <= fs.len(),
            count == function_count(fs@, fs@[k as int].name@, i as nat),
            count <= i,
            i <= k ==> before == function_named_before(fs@, fs@[k as int].name@, i as nat),
            i > k ==> before == function_named_before(fs@, fs@[k as int].name@, k as nat),
        decreases fs.len() - i,
    {
        if fs[i].name == fs[k].name {
            count = count + 1;
            if i < k {
                before = true;
            }
        }
        i += 1;
    }
    (count, before)
}

pub fn write_module(out: &mut String, module: &LuaModule, target: CodegenTarget)
    ensures
        final(out)@ == old(out)@ + module_text(*module),
{
    reveal(module_text);
    write_doc(out, &module.doc);
    out.append("---@class ");
    out.append(module.name.as_str());
    out.append("\n");
    write_fields(out, &module.fields);
    out.append(module.name.as_str());
    out.append(" = {}\n");
    let ns = module.name.as_str();
    let fs = &module.functions;
    let ghost base = out@;
    let mut i: usize = 0;
    while i < fs.len()
        invariant
            i <= fs.len(),
            ns@ == module.name@,
            *fs == module.functions,
            out@ == base + functions_text(ns@, fs@, i as nat),
        decreases fs.len() - i,
    {
        let (count, before) = count_functions_named(fs, i);
        if count > 1 {
            if !before {
                out.append("\n");
                proof {
                    lemma_function_none_before(fs@, fs@[i as int].name@, i as nat);
                }
                write_overloaded_function(out, ns, fs, i, target);
            }
        } else {
            out.append("\n");
            write_namespaced_function(out, ns, &fs[i], target);
        }
        i += 1;
    }
}

/// The stub of a global function, its name written as it is.
#[verifier::opaque]
pub open spec fn global_function_text(f: LuaFunction) -> Seq<char> {
    doc_text(f.doc) + async_text(f.is_async) + params_ann_text(f.params@, f.params@.len())
        + returns_ann_text(f.returns@, f.returns@.len()) + "function "@ + f.name@ + "("@
        + params_str_text(f.params@, f.params@.len()) + ") end\n"@
}

pub fn write_global_function(out: &mut String, func: &LuaFunction, _target: CodegenTarget)
    ensures
        final(out)@ == old(out)@ + global_function_text(*func),
{
    reveal(global_function_text);
    write_doc(out, &func.doc);
    if func.is_async {
        out.append("---@async\n");
    }
    write_params(out, &func.params);
    write_returns(out, &func.returns);
    let ps = params_to_str(&func.params);
    out.append("function ");
    out.append(func.name.as_str());
    out.append("(");
    out.append(ps.as_str());
    out.append(") end\n");
}

#[verifier::opaque]
pub open spec fn global_field_text(f: LuaField) -> Seq<char> {
    doc_text(f.doc) + "---@type "@ + ty_text(f.ty@) + "\n"@ + f.name@ + " = "@ + f.name@ + "\n"@
}

pub fn write_global_field(out: &mut String, field: &LuaField)
    ensures
        final(out)@ == old(out)@ + global_field_text(*field),
{
    reveal(global_field_text);
    write_doc(out, &field.doc);
    out.append("---@type ");
    let t = field.ty.to_string();
    out.append(t.as_str());
    out.append("\n");
    out.append(field.name.as_str());
    out.append(" = ");
    out.append(field.name.as_str());
    out.append("\n");
}

// ── whole API ─────────────────────────────────────────────────────────

pub open spec fn enums_text(es: Seq<LuaEnum>, n: nat) -> Seq<char>
    decreases n,
{
    if n == 0 {
        Seq::empty()
    } else {
        enums_text(es, (n - 1) as nat) + "\n"@ + enum_text(es[n - 1])
    }
}

pub open spec fn classes_text(cs: Seq<LuaClass>, target: CodegenTarget, n: nat) -> Seq<char>
    decreases n,
{
    if n == 0 {
        Seq::empty()
    } else {
        classes_text(cs, target, (n - 1) as nat) + "\n"@ + class_text(cs[n - 1], target)
    }
}

pub open spec fn modules_text(ms: Seq<LuaModule>, n: nat) -> Seq<char>
    decreases n,
{
    if n == 0 {
        Seq::empty()
    } else {
        modules_text(ms, (n - 1) as nat) + "\n"@ + module_text(ms[n - 1])
    }
}

pub open spec fn global_fields_text(fs: Seq<LuaField>, n: nat) -> Seq<char>
    decreases n,
{
    if n == 0 {
        Seq::empty()
    } else {
        global_fields_text(fs, (n - 1) as nat) + "\n"@ + global_field_text(fs[n - 1])
    }
}

pub open spec fn global_functions_text(fs: Seq<LuaFunction>, n: nat) -> Seq<char>
    decreases n,
{
    if n == 0 {
        Seq::empty()
    } else {
        global_functions_text(fs, (n - 1) as nat) + "\n"@ + global_function_text(fs[n - 1])
    }
}

/// The stub file of an API: `---@meta`, then the enums, classes, modules,
/// global fields and global functions, each after a blank line.
pub open spec fn stubs_text(api: LuaApi, target: CodegenTarget) -> Seq<char> {
    "---@meta\n"@ + enums_text(api.enums@, api.enums@.len()) + classes_text(
        api.classes@,
        target,
        api.classes@.len(),
    ) + modules_text(api.modules@, api.modules@.len()) + global_fields_text(
        api.global_fields@,
        api.global_fields@.len(),
    ) + global_functions_text(api.global_functions@, api.global_functions@.len())
}

/// Generates stub content for a complete API targeting a specific language
/// server.
pub fn generate_stubs_for(api: &LuaApi, target: CodegenTarget) -> (r: String)
    ensures
        r@ == stubs_text(*api, target),
{
    let mut out = owned("---@meta\n");
    let ghost b0 = out@;
    let mut i: usize = 0;
    while i < api.enums.len()
        invariant
            i <= api.enums.len(),
            out@ == b0 + enums_text(api.enums@, i as nat),
        decreases api.enums.len() - i,
    {
        out.append("\n");
        write_enum(&mut out, &api.enums[i], target);
        i += 1;
    }
    let ghost b1 = out@;
    let mut i: usize = 0;
    while i < api.classes.len()
        invariant
            i <= api.classes.len(),
            out@ == b1 + classes_text(api.classes@, target, i as nat),
        decreases api.classes.len() - i,
    {
        out.append("\n");
        write_class(&mut out, &api.classes[i], target);
        i += 1;
    }
    let ghost b2 = out@;
    let mut i: usize = 0;
    while i < api.modules.len()
        invariant
            i <= api.modules.len(),
            out@ == b2 + modules_text(api.modules@, i as nat),
        decreases api.modules.len() - i,
    {
        out.append("\n");
        write_module(&mut out, &api.modules[i], target);
        i += 1;
    }
    let ghost b3 = out@;
    let mut i: usize = 0;
    while i < api.global_fields.len()
        invariant
            i <= api.global_fields.len(),
            out@ == b3 + global_fields_text(api.global_fields@, i as nat),
        decreases api.global_fields.len() - i,
    {
        out.append("\n");
        write_global_field(&mut out, &api.global_fields[i]);
        i += 1;
    }
    let ghost b4 = out@;
    let mut i: usize = 0;
    while i < api.global_functions.len()
        invariant
            i <= api.global_functions.len(),
            out@ == b4 + global_functions_text(api.global_functions@, i as nat),
        decreases api.global_functions.len() - i,
    {
        out.append("\n");
        write_global_function(&mut out, &api.global_functions[i], target);
        i += 1;
    }
    out
}

/// Generates LuaCATS stub content for a complete API.
pub fn generate_stubs(api: &LuaApi) -> (r: String)
    ensures
        r@ == stubs_text(*api, CodegenTarget::LuaLS),
{
    generate_stubs_for(api, CodegenTarget::LuaLS)
}

/// Classes whose stubs are traced when tracing is on.
pub fn should_trace_codegen_class(name: &str) -> (r: bool)
    ensures
        r == (name@ == "Access"@ || name@ == "Path"@ || name@ == "Url"@ || name@ == "Style"@
            || name@ == "File"@ || name@ == "Tab"@),
{
    str_eq(name, "Access") || str_eq(name, "Path") || str_eq(name, "Url") || str_eq(name, "Style")
        || str_eq(name, "File") || str_eq(name, "Tab")
}

/// Global functions whose stubs are traced when tracing is on.
pub fn should_trace_codegen_global(name: &str) -> (r: bool)
    ensures
        r == (name@ == "Url"@ || name@ == "Path"@ || name@ == "File"@),
{
    str_eq(name, "Url") || str_eq(name, "Path") || str_eq(name, "File")
}

} // verus!
