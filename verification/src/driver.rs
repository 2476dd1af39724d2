//! The command-line handling of the compiler driver: pulling the tool's own
//! flags out of the compiler arguments and completing them with a sysroot.
use vstd::prelude::*;

use crate::text::{owned, starts_with, starts_with_exec, str_eq, suffix_from, trim, trim_exec};
use crate::CodegenTarget;

verus! {

broadcast use vstd::std_specs::vec::group_vec_axioms;

/// The texts of a list of strings.
pub open spec fn texts(s: Seq<String>) -> Seq<Seq<char>> {
    Seq::new(s.len(), |i: int| s[i]@)
}

/// Whether the compiler arguments already name a sysroot.
pub open spec fn names_sysroot(args: Seq<Seq<char>>) -> bool {
    exists|i: int|
        0 <= i < args.len() && (args[i] == "--sysroot"@ || starts_with(
            #[trigger] args[i],
            "--sysroot="@,
        ))
}

/// The compiler command line: the compiler, its arguments, and
/// `--sysroot <dir>` when the arguments name none and a sysroot is known.
pub open spec fn compiler_args(
    rustc: Seq<char>,
    args: Seq<Seq<char>>,
    sysroot: Option<Seq<char>>,
) -> Seq<Seq<char>> {
    let base = seq![rustc] + args;
    match sysroot {
        Some(dir) if !names_sysroot(args) => base + seq!["--sysroot"@, dir],
        _ => base,
    }
}

/// The annotation flavour to write: EmmyLua when asked for on the command
/// line or by the environment, LuaCATS otherwise.
pub fn codegen_target(force_emmylua: bool, emmylua_requested: bool) -> (r: CodegenTarget)
    ensures
        r == (if force_emmylua || emmylua_requested {
            CodegenTarget::EmmyLua
        } else {
            CodegenTarget::LuaLS
        }),
{
    if force_emmylua || emmylua_requested {
        CodegenTarget::EmmyLua
    } else {
        CodegenTarget::LuaLS
    }
}

/// Whether `rustc_args` already holds `--sysroot` or `--sysroot=...`.
pub fn has_sysroot_arg(rustc_args: &[String]) -> (r: bool)
    ensures
        r == names_sysroot(texts(rustc_args@)),
{
    let ghost a = texts(rustc_args@);
    let mut i: usize = 0;
    while i < rustc_args.len()
        invariant
            a == texts(rustc_args@),
            i <= rustc_args.len(),
            forall|j: int|
                0 <= j < i ==> !(a[j] == "--sysroot"@ || starts_with(#[trigger] a[j], "--sysroot="@)),
        decreases rustc_args.len() - i,
    {
        let s = rustc_args[i].as_str();
        assert(a[i as int] == s@);
        if str_eq(s, "--sysroot") || starts_with_exec(s, "--sysroot=") {
            return true;
        }
        i += 1;
    }
    false
}

/// The compiler command line for `rustc` with `rustc_args`. The sysroot
/// that `inferred_sysroot` holds is added only when the arguments name none;
/// the caller asks the toolchain for it (see [`has_sysroot_arg`]).
pub fn make_compiler_args(
    rustc: String,
    rustc_args: &[String],
    inferred_sysroot: Option<String>,
) -> (r: Vec<String>)
    ensures
        texts(r@) == compiler_args(
            rustc@,
            texts(rustc_args@),
            match inferred_sysroot {
                Some(s) => Some(s@),
                None => None,
            },
        ),
{
    let ghost a = texts(rustc_args@);
    let mut compiler_args: Vec<String> = Vec::new();
    compiler_args.push(rustc);
    let mut i: usize = 0;
    while i < rustc_args.len()
        invariant
            a == texts(rustc_args@),
            i <= rustc_args.len(),
            compiler_args.len() == i + 1,
            texts(compiler_args@) == seq![rustc@] + a.take(i as int),
        decreases rustc_args.len() - i,
    {
        let ghost before = texts(compiler_args@);
        compiler_args.push(rustc_args[i].clone());
        assert(texts(compiler_args@) =~= before.push(a[i as int]));
        assert(seq![rustc@] + a.take(i + 1) =~= (seq![rustc@] + a.take(i as int)).push(a[i as int]));
        i += 1;
    }
    assert(a.take(rustc_args.len() as int) =~= a);
    let has_sysroot = has_sysroot_arg(rustc_args);
    if !has_sysroot {
        if let Some(sysroot) = inferred_sysroot {
            let ghost before = texts(compiler_args@);
            let ghost dir = sysroot@;
            compiler_args.push(owned("--sysroot"));
            compiler_args.push(sysroot);
            assert(texts(compiler_args@) =~= before + seq!["--sysroot"@, dir]);
        }
    }
    compiler_args
}

/// Calls `std::path::Path::is_absolute` on `p`. Trusted: an absolute path
/// is never empty. What else makes a path absolute depends on the platform
/// (on Unix, a leading `/`) and is left unstated.
#[verifier::external_body]
fn path_is_absolute(p: &str) -> (r: bool)
    ensures
        r ==> p@.len() > 0,
{
    std::path::Path::new(p).is_absolute()
}

/// Calls `std::path::Path::parent` on `p`. Trusted: as its documentation
/// says, the parent is `p` without its final component, so a strictly
/// shorter prefix of `p`, and the empty path has none. Where the platform
/// splits components is left unstated.
#[verifier::external_body]
fn path_parent(p: &str) -> (r: Option<String>)
    ensures
        p@.len() == 0 ==> r is None,
        r matches Some(q) ==> q@.len() < p@.len() && q@ == p@.take(q@.len() as int),
{
    match std::path::Path::new(p).parent() {
        Some(q) => Some(q.to_string_lossy().into_owned()),
        None => None,
    }
}

/// The sysroot that a path of `rustc` gives, from what the platform says
/// of the path: whether it is absolute, and the parent of its parent, if
/// it has one. A relative path gives none.
pub fn sysroot_from_path_parts(absolute: bool, grandparent: Option<String>) -> (r: Option<String>)
    ensures
        r == (if absolute {
            grandparent
        } else {
            None
        }),
{
    if absolute {
        grandparent
    } else {
        None
    }
}

/// The sysroot that the path of `rustc` gives when it is absolute: the
/// parent of its parent (`/opt/tc` for `/opt/tc/bin/rustc`), as
/// [`sysroot_from_path_parts`] takes it from the platform's answers.
/// Nothing for a relative path or one without two parents; then the
/// toolchain has to be asked (see [`sysroot_from_print_output`]).
pub fn sysroot_from_rustc_path(rustc: &str) -> (r: Option<String>)
    ensures
        rustc@.len() == 0 ==> r is None,
        r matches Some(s) ==> s@.len() + 1 < rustc@.len() && s@ == rustc@.take(s@.len() as int),
{
    let absolute = path_is_absolute(rustc);
    let grandparent = match path_parent(rustc) {
        None => None,
        Some(bin) => {
            let g = path_parent(bin.as_str());
            proof {
                if g is Some {
                    let s = g->0;
                    assert(s@ == rustc@.take(bin@.len() as int).take(s@.len() as int));
                    assert(rustc@.take(bin@.len() as int).take(s@.len() as int) =~= rustc@.take(
                        s@.len() as int,
                    ));
                }
            }
            g
        },
    };
    sysroot_from_path_parts(absolute, grandparent)
}

/// The sysroot that `rustc --print sysroot` wrote to its standard output:
/// the output without surrounding whitespace, or nothing when only
/// whitespace was written.
pub fn sysroot_from_print_output(stdout: &str) -> (r: Option<String>)
    ensures
        match r {
            Some(s) => trim(stdout@).len() > 0 && s@ == trim(stdout@),
            None => trim(stdout@).len() == 0,
        },
{
    let sysroot = trim_exec(stdout);
    if sysroot.unicode_len() == 0 {
        None
    } else {
        Some(owned(sysroot))
    }
}

/// The arguments of `args` that do not start with `prefix`, in order.
pub open spec fn without_prefixed(args: Seq<Seq<char>>, prefix: Seq<char>) -> Seq<Seq<char>>
    decreases args.len(),
{
    if args.len() == 0 {
        Seq::empty()
    } else if starts_with(args.last(), prefix) {
        without_prefixed(args.drop_last(), prefix)
    } else {
        without_prefixed(args.drop_last(), prefix).push(args.last())
    }
}

/// What follows `prefix` in the last argument that starts with it.
pub open spec fn flag_value(args: Seq<Seq<char>>, prefix: Seq<char>) -> Option<Seq<char>>
    decreases args.len(),
{
    if args.len() == 0 {
        None
    } else if starts_with(args.last(), prefix) {
        Some(args.last().subrange(prefix.len() as int, args.last().len() as int))
    } else {
        flag_value(args.drop_last(), prefix)
    }
}

proof fn lemma_take_step(s: Seq<Seq<char>>, i: int)
    requires
        0 <= i < s.len(),
    ensures
        s.take(i + 1).drop_last() == s.take(i),
        s.take(i + 1).last() == s[i],
        s.take(i + 1).len() == i + 1,
{
    assert(s.take(i + 1).drop_last() =~= s.take(i));
}

/// Extract a `--key=value` flag from args, removing it so rustc doesn't see
/// it; the value of its last occurrence is returned.
pub fn extract_flag(args: &mut Vec<String>, prefix: &str) -> (r: Option<String>)
    ensures
        texts(final(args)@) == without_prefixed(texts(old(args)@), prefix@),
        match r {
            Some(v) => flag_value(texts(old(args)@), prefix@) == Some(v@),
            None => flag_value(texts(old(args)@), prefix@) is None,
        },
{
    let ghost a = texts(args@);
    let plen = prefix.unicode_len();
    let mut kept: Vec<String> = Vec::new();
    let mut value: Option<String> = None;
    let mut i: usize = 0;
    while i < args.len()
        invariant
            a == texts(args@),
            plen == prefix@.len(),
            i <= args.len(),
            texts(kept@) == without_prefixed(a.take(i as int), prefix@),
            match value {
                Some(v) => flag_value(a.take(i as int), prefix@) == Some(v@),
                None => flag_value(a.take(i as int), prefix@) is None,
            },
        decreases args.len() - i,
    {
        proof {
            lemma_take_step(a, i as int);
        }
        let s = args[i].as_str();
        assert(a[i as int] == s@);
        if starts_with_exec(s, prefix) {
            value = Some(owned(suffix_from(s, plen)));
        } else {
            let ghost before = texts(kept@);
            kept.push(args[i].clone());
            assert(texts(kept@) =~= before.push(s@));
        }
        i += 1;
    }
    assert(a.take(args.len() as int) =~= a);
    *args = kept;
    value
}

/// The arguments of `args` other than `flag`, in order.
pub open spec fn without_flag(args: Seq<Seq<char>>, flag: Seq<char>) -> Seq<Seq<char>>
    decreases args.len(),
{
    if args.len() == 0 {
        Seq::empty()
    } else if args.last() == flag {
        without_flag(args.drop_last(), flag)
    } else {
        without_flag(args.drop_last(), flag).push(args.last())
    }
}

/// Extract a boolean flag from args, removing it so rustc doesn't see it;
/// returns whether it was there.
pub fn extract_bool_flag(args: &mut Vec<String>, flag: &str) -> (r: bool)
    ensures
        texts(final(args)@) == without_flag(texts(old(args)@), flag@),
        r == texts(old(args)@).contains(flag@),
{
    let ghost a = texts(args@);
    let mut kept: Vec<String> = Vec::new();
    let mut found = false;
    let mut i: usize = 0;
    while i < args.len()
        invariant
            a == texts(args@),
            i <= args.len(),
            texts(kept@) == without_flag(a.take(i as int), flag@),
            found == a.take(i as int).contains(flag@),
        decreases args.len() - i,
    {
        proof {
            lemma_take_step(a, i as int);
        }
        let s = args[i].as_str();
        assert(a[i as int] == s@);
        if str_eq(s, flag) {
            found = true;
            assert(a.take(i + 1)[i as int] == flag@);
        } else {
            let ghost before = texts(kept@);
            kept.push(args[i].clone());
            assert(texts(kept@) =~= before.push(s@));
            assert(a.take(i + 1).contains(flag@) ==> a.take(i as int).contains(flag@)) by {
                if a.take(i + 1).contains(flag@) {
                    let k = choose|k: int| 0 <= k < a.take(i + 1).len() && #[trigger] a.take(i + 1)[k] == flag@;
                    assert(k != i);
                    assert(a.take(i as int)[k] == flag@);
                }
            }
        }
        assert(a.take(i as int).contains(flag@) ==> a.take(i + 1).contains(flag@)) by {
            if a.take(i as int).contains(flag@) {
                let k = choose|k: int| 0 <= k < a.take(i as int).len() && #[trigger] a.take(i as int)[k] == flag@;
                assert(a.take(i + 1)[k] == flag@);
            }
        }
        i += 1;
    }
    assert(a.take(args.len() as int) =~= a);
    *args = kept;
    found
}

} // verus!
