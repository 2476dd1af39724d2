//! The command line of the `mlua-typegen` launcher: where to write the
//! stubs, which annotation flavour to write, and what goes on to cargo.
use vstd::prelude::*;

use crate::driver::texts;
use crate::text::{owned, str_eq};

verus! {

broadcast use vstd::std_specs::vec::group_vec_axioms;

/// What the launcher was asked to do.
pub struct LauncherArgs {
    /// The directory for the stubs, as given.
    pub output_dir: String,
    pub emit_emmylua: bool,
    /// The arguments passed on to `cargo check`.
    pub cargo_args: Vec<String>,
}

/// Why the launcher's command line was refused.
#[derive(Debug, Clone, Copy, PartialEq, Eq, Structural)]
pub enum LauncherError {
    /// `--output` or `-o` came last, without a directory.
    MissingOutputDir,
}

/// Reads `args` from position `i` on, with the output directory, the
/// EmmyLua switch and the cargo arguments found so far: `--output DIR` and
/// `-o DIR` set the directory, `--emmylua` the switch, anything else goes
/// to cargo; none when `--output` or `-o` has no directory after it.
pub open spec fn parsed_from(
    args: Seq<Seq<char>>,
    i: int,
    out: Seq<char>,
    emmy: bool,
    cargo: Seq<Seq<char>>,
) -> Option<(Seq<char>, bool, Seq<Seq<char>>)>
    decreases args.len() - i,
{
    if i < 0 || i >= args.len() {
        Some((out, emmy, cargo))
    } else if args[i] == "--output"@ || args[i] == "-o"@ {
        if i + 1 < args.len() {
            parsed_from(args, i + 2, args[i + 1], emmy, cargo)
        } else {
            None
        }
    } else if args[i] == "--emmylua"@ {
        parsed_from(args, i + 1, out, true, cargo)
    } else {
        parsed_from(args, i + 1, out, emmy, cargo.push(args[i]))
    }
}

/// The launcher's reading of its arguments (those after the program name),
/// starting from the `lua-types` directory.
pub open spec fn launcher_parse(args: Seq<Seq<char>>) -> Option<(Seq<char>, bool, Seq<Seq<char>>)> {
    parsed_from(args, 0, "lua-types"@, false, Seq::empty())
}

/// Reads the launcher's arguments (see [`launcher_parse`]).
pub fn parse_launcher_args(args: &[String]) -> (r: Result<LauncherArgs, LauncherError>)
    ensures
        match r {
            Ok(a) => launcher_parse(texts(args@)) == Some(
                (a.output_dir@, a.emit_emmylua, texts(a.cargo_args@)),
            ),
            Err(e) => e == LauncherError::MissingOutputDir && launcher_parse(texts(args@)) is None,
        },
{
    let ghost a = texts(args@);
    let mut output_dir = owned("lua-types");
    let mut emit_emmylua = false;
    let mut cargo_args: Vec<String> = Vec::new();
    let mut i: usize = 0;
    assert(texts(cargo_args@) =~= Seq::<Seq<char>>::empty());
    while i < args.len()
        invariant
            a == texts(args@),
            i <= args.len(),
            launcher_parse(a) == parsed_from(
                a,
                i as int,
                output_dir@,
                emit_emmylua,
                texts(cargo_args@),
            ),
        decreases args.len() - i,
    {
        let arg = args[i].as_str();
        assert(a[i as int] == arg@);
        if str_eq(arg, "--output") || str_eq(arg, "-o") {
            if i + 1 < args.len() {
                assert(a[i + 1] == args[i + 1]@);
                output_dir = owned(args[i + 1].as_str());
                i += 2;
            } else {
                return Err(LauncherError::MissingOutputDir);
            }
        } else if str_eq(arg, "--emmylua") {
            emit_emmylua = true;
            i += 1;
        } else {
            let ghost before = texts(cargo_args@);
            cargo_args.push(owned(arg));
            assert(texts(cargo_args@) =~= before.push(arg@));
            i += 1;
        }
    }
    Ok(LauncherArgs { output_dir, emit_emmylua, cargo_args })
}

} // verus!
