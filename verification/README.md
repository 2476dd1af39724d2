# mlua_typegen

Lua type stubs (LuaCATS annotations for LuaLS and EmmyLua) from the Lua API
of Rust crates built on mlua, as a library whose behaviour is stated in
Verus contracts and proved.

## Layout

- `src/lib.rs` — the Lua type model (`LuaType` and its mathematical value
  `LuaTy`) and the API model (classes, enums, modules, functions, fields).
- `src/union.rs` — building union types from branch types.
- `src/display.rs` — writing types as annotation text, and reading back
  annotation text embedded in class names.
- `src/typemap.rs` — the Rust-to-Lua type mapping.
- `src/codegen.rs` — stub generation; `src/files.rs` — what each stub
  file holds, including merging a module into an existing file.
- `src/refine.rs` — which of two inferred types says more, when inferred
  returns replace declared ones, reading Rust type names, normalizing
  inferred types, merging branch returns.
- `src/normalize.rs` — normalizing every type of an extracted API.
- `src/assemble.rs` — merging modules, dropping helper tables and
  unexported modules, removing duplicates, sorting by name.
- `src/registry.rs` — the bookkeeping of module registrations: table
  bindings, local and exported modules, and the modules nested in them.
- `src/snippets.rs`, `src/text.rs` — reading source snippets and text.
- `src/driver.rs`, `src/launcher.rs` — command-line handling of the compiler
  driver and of the launcher; `src/heck_case.rs` — case conversion through
  the `heck` crate.
- `src/laws.rs` — properties of the library as a whole.
- `app/` — the launcher program and the writing of stub files to disk.

## Not part of this crate

The extraction itself is not here: the compiler driver and the walk over
rustc's type-checked HIR that finds `impl UserData` blocks, methods,
fields, registrations and the types they take and return. That code is
built on the `rustc_*` crates (`rustc_driver`, `rustc_hir`,
`rustc_middle`, ...), which ship with the compiler rather than as
registry crates, and the decisions in it are made inside rustc's type
queries. With it go the features that rest on it: classes found from
`impl UserData` blocks, `AnyUserData` resolution through
`create_any_userdata`, the expansion of `into_lua_multi` tuple returns,
and union types gathered from `match` and `if` branches.

Pieces of the rules those walkers apply to plain values are here and
verified, for such a walker to call: the rules for choosing and merging
inferred types (`src/refine.rs`), the rule for the type of a set of
branches (`union_of_present` in `src/union.rs`), and the bookkeeping of
registrations (`src/registry.rs`); nothing in this crate calls them on
compiler data. The assembling, normalizing and writing of an extracted
API are here in full.
