//! What the stub files hold: one file per module, merged with what an
//! earlier crate wrote there, and one file per crate for everything else.
use vstd::prelude::*;

use crate::codegen::{
    enums_text, classes_text, field_text, global_fields_text, global_functions_text,
    generate_stubs_for, lines, module_text, modules_text, namespaced_function_text,
    text_lines, write_field, write_module, write_namespaced_function,
};
use crate::driver::texts;
use crate::text::{
    before_first, before_first_exec, contains, contains_exec, owned, slices_view, starts_with,
    starts_with_exec, str_eq, suffix_from, trim, trim_end, trim_end_exec, trim_exec,
};
use crate::{CodegenTarget, LuaApi, LuaField, LuaFunction, LuaModule};

verus! {

broadcast use vstd::std_specs::vec::group_vec_axioms;

// ── module files ──────────────────────────────────────────────────────

/// The function a stub line defines: for `function m.f(...)`, `m.f`.
pub open spec fn defined_function(line: Seq<char>) -> Option<Seq<char>> {
    let t = trim(line);
    if starts_with(t, "function "@) {
        Some(before_first(t.subrange(9, t.len() as int), "("@))
    } else {
        None
    }
}

/// The functions that the lines `ls` define, in order.
pub open spec fn defined_in(ls: Seq<Seq<char>>) -> Seq<Seq<char>>
    decreases ls.len(),
{
    if ls.len() == 0 {
        Seq::empty()
    } else {
        defined_in(ls.drop_last()) + match defined_function(ls.last()) {
            Some(f) => seq![f],
            None => Seq::empty(),
        }
    }
}

pub open spec fn field_marker(name: Seq<char>) -> Seq<char> {
    "---@field "@ + name + " "@
}

/// `acc` with each of the first `n` fields appended whose annotation it
/// does not hold yet.
pub open spec fn fields_appended(acc: Seq<char>, fs: Seq<LuaField>, n: nat) -> Seq<char>
    decreases n,
{
    if n == 0 {
        acc
    } else {
        let prev = fields_appended(acc, fs, (n - 1) as nat);
        if contains(prev, field_marker(fs[n - 1].name@)) {
            prev
        } else {
            prev + field_text(fs[n - 1])
        }
    }
}

/// `acc` with the stub of each of the first `n` functions appended that
/// `defined` does not name as `m.f` or `m:f`.
pub open spec fn functions_appended(
    acc: Seq<char>,
    m: Seq<char>,
    defined: Seq<Seq<char>>,
    fs: Seq<LuaFunction>,
    n: nat,
) -> Seq<char>
    decreases n,
{
    if n == 0 {
        acc
    } else {
        let prev = functions_appended(acc, m, defined, fs, (n - 1) as nat);
        let f = fs[n - 1];
        if defined.contains(m + "."@ + f.name@) || defined.contains(m + ":"@ + f.name@) {
            prev
        } else {
            prev + namespaced_function_text(m, f)
        }
    }
}

/// The content of a module's stub file: a fresh file holds the module's
/// stubs after `---@meta`; an existing one keeps its text, trailing
/// whitespace aside, and gains a blank line, the fields it does not
/// annotate yet and the functions it does not define yet.
pub open spec fn module_file_text(existing: Option<Seq<char>>, m: LuaModule) -> Seq<char> {
    match existing {
        None => "---@meta\n"@ + "\n"@ + module_text(m),
        Some(c) => {
            let base = trim_end(c) + "\n\n"@;
            functions_appended(
                fields_appended(base, m.fields@, m.fields@.len()),
                m.name@,
                defined_in(lines(base)),
                m.functions@,
                m.functions@.len(),
            )
        },
    }
}

pub open spec fn opt_text(o: Option<&str>) -> Option<Seq<char>> {
    match o {
        Some(s) => Some(s@),
        None => None,
    }
}

fn defined_function_exec(line: &str) -> (r: Option<String>)
    ensures
        match r {
            Some(f) => defined_function(line@) == Some(f@),
            None => defined_function(line@) is None,
        },
{
    let t = trim_exec(line);
    proof {
        reveal_strlit("function ");
    }
    if starts_with_exec(t, "function ") {
        let rest = suffix_from(t, 9);
        Some(owned(before_first_exec(rest, "(")))
    } else {
        None
    }
}

fn defined_function_names(content: &str) -> (r: Vec<String>)
    ensures
        texts(r@) == defined_in(lines(content@)),
{
    let ls = text_lines(content);
    let ghost l = slices_view(ls@);
    let mut names: Vec<String> = Vec::new();
    let mut i: usize = 0;
    while i < ls.len()
        invariant
            l == slices_view(ls@),
            l == lines(content@),
            i <= ls.len(),
            texts(names@) == defined_in(l.take(i as int)),
        decreases ls.len() - i,
    {
        assert(l.take(i + 1).drop_last() =~= l.take(i as int));
        assert(l.take(i + 1).last() == ls[i as int]@);
        let ghost before = texts(names@);
        match defined_function_exec(ls[i]) {
            Some(f) => {
                let ghost fv = f@;
                names.push(f);
                assert(texts(names@) =~= before + seq![fv]);
            },
            None => {
                assert(texts(names@) =~= before + Seq::<Seq<char>>::empty());
            },
        }
        i += 1;
    }
    assert(l.take(ls.len() as int) =~= l);
    names
}

fn names_contain(names: &Vec<String>, q: &str) -> (r: bool)
    ensures
        r == texts(names@).contains(q@),
{
    let mut i: usize = 0;
    while i < names.len()
        invariant
            i <= names.len(),
            forall|j: int| 0 <= j < i ==> texts(names@)[j] != q@,
        decreases names.len() - i,
    {
        if str_eq(names[i].as_str(), q) {
            assert(texts(names@)[i as int] == q@);
            return true;
        }
        i += 1;
    }
    false
}

fn qualified(m: &str, sep: &str, f: &str) -> (r: String)
    ensures
        r@ == m@ + sep@ + f@,
{
    let mut q = owned(m);
    q.append(sep);
    q.append(f);
    q
}

/// The content of a module's stub file, given what the file already holds,
/// if it exists (see [`module_file_text`]).
pub fn module_file_content(existing: Option<&str>, module: &LuaModule, target: CodegenTarget) -> (r:
    String)
    ensures
        r@ == module_file_text(opt_text(existing), *module),
{
    match existing {
        None => {
            let mut content = owned("---@meta\n");
            content.append("\n");
            write_module(&mut content, module, target);
            content
        },
        Some(c) => {
            let mut content = owned(trim_end_exec(c));
            content.append("\n\n");
            let ghost base = content@;
            let names = defined_function_names(content.as_str());
            let mut i: usize = 0;
            while i < module.fields.len()
                invariant
                    i <= module.fields.len(),
                    content@ == fields_appended(base, module.fields@, i as nat),
                decreases module.fields.len() - i,
            {
                let marker = qualified("---@field ", module.fields[i].name.as_str(), " ");
                if !contains_exec(content.as_str(), marker.as_str()) {
                    write_field(&mut content, &module.fields[i]);
                }
                i += 1;
            }
            let ghost with_fields = content@;
            let mut j: usize = 0;
            while j < module.functions.len()
                invariant
                    j <= module.functions.len(),
                    texts(names@) == defined_in(lines(base)),
                    content@ == functions_appended(
                        with_fields,
                        module.name@,
                        defined_in(lines(base)),
                        module.functions@,
                        j as nat,
                    ),
                decreases module.functions.len() - j,
            {
                let f = &module.functions[j];
                let dot = qualified(module.name.as_str(), ".", f.name.as_str());
                let colon = qualified(module.name.as_str(), ":", f.name.as_str());
                if !names_contain(&names, dot.as_str()) && !names_contain(&names, colon.as_str()) {
                    write_namespaced_function(&mut content, module.name.as_str(), f, target);
                }
                j += 1;
            }
            content
        },
    }
}

// ── the crate file ────────────────────────────────────────────────────

/// The stubs of an API's enums, classes, global fields and global
/// functions, its modules having files of their own.
pub open spec fn crate_text(api: LuaApi, target: CodegenTarget) -> Seq<char> {
    "---@meta\n"@ + enums_text(api.enums@, api.enums@.len()) + classes_text(
        api.classes@,
        target,
        api.classes@.len(),
    ) + global_fields_text(api.global_fields@, api.global_fields@.len())
        + global_functions_text(api.global_functions@, api.global_functions@.len())
}

/// The content of the crate's stub file: everything but the modules, or
/// nothing when that is no more than `---@meta`.
pub fn crate_file_content(api: LuaApi, target: CodegenTarget) -> (r: Option<String>)
    ensures
        match r {
            Some(s) => s@ == crate_text(api, target) && trim(crate_text(api, target)).len() > 8,
            None => trim(crate_text(api, target)).len() <= 8,
        },
{
    let ghost whole = api;
    let mut api = api;
    let mut modules: Vec<LuaModule> = Vec::new();
    std::mem::swap(&mut modules, &mut api.modules);
    let content = generate_stubs_for(&api, target);
    assert(api.modules@.len() == 0);
    assert(modules_text(api.modules@, 0) =~= Seq::<char>::empty());
    assert(content@ =~= crate_text(whole, target));
    if trim_exec(content.as_str()).unicode_len() > 8 {
        Some(content)
    } else {
        None
    }
}

} // verus!
