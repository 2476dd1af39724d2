//! Lua type stubs from Rust API descriptions: the Lua type model, the
//! Rust-to-Lua type mapping, and LuaCATS stub generation.
use vstd::prelude::*;

pub mod assemble;
pub mod codegen;
pub mod display;
pub mod driver;
pub mod files;
pub mod heck_case;
pub mod normalize;
pub mod refine;
pub mod registry;
pub mod reparse;
pub mod launcher;
pub mod laws;
pub mod snippets;
pub mod text;
pub mod typemap;
pub mod union;

pub use union::make_union;

verus! {

broadcast use vstd::std_specs::vec::group_vec_axioms;

/// Which language server to target for codegen.
#[derive(Debug, Clone, Copy, PartialEq, Eq, Structural)]
pub enum CodegenTarget {
    /// LuaCATS annotations (used by LuaLS). This is the default.
    LuaLS,
    /// EmmyLua annotations (EmmyLua plugin for IntelliJ / VS Code).
    EmmyLua,
}

impl Default for CodegenTarget {
    fn default() -> (r: Self)
        ensures
            r == CodegenTarget::LuaLS,
    {
        CodegenTarget::LuaLS
    }
}

/// The mathematical value of a [`LuaType`]: the same shape, with texts as
/// character sequences and lists as sequences.
pub enum LuaTy {
    Nil,
    Boolean,
    Integer,
    Number,
    String,
    Table,
    Function,
    Any,
    Array(Box<LuaTy>),
    Optional(Box<LuaTy>),
    TypedTable(Box<LuaTy>, Box<LuaTy>),
    Class(Seq<char>),
    StringLiteral(Seq<Seq<char>>),
    Union(Seq<LuaTy>),
    Thread,
    Variadic(Box<LuaTy>),
    FunctionSig { params: Seq<LuaTy>, returns: Seq<LuaTy> },
}

/// Represents a Lua type extracted from Rust code.
#[derive(Debug, PartialEq, Eq)]
pub enum LuaType {
    Nil,
    Boolean,
    Integer,
    Number,
    String,
    Table,
    Function,
    Any,
    /// A typed array: `T[]`
    Array(Box<LuaType>),
    /// An optional type: `T?`
    Optional(Box<LuaType>),
    /// A typed table: `table<K, V>`
    TypedTable(Box<LuaType>, Box<LuaType>),
    /// A reference to another UserData class or alias by name.
    Class(String),
    /// A union of string literals: `"a" | "b" | "c"`
    StringLiteral(Vec<String>),
    /// A union of types: `T | U`
    Union(Vec<LuaType>),
    /// A Lua thread (coroutine).
    Thread,
    /// Variadic: `T...`
    Variadic(Box<LuaType>),
    /// A typed function signature: `fun(p1: T, p2: U): V`
    FunctionSig { params: Vec<LuaType>, returns: Vec<LuaType> },
}

pub open spec fn tys_view(v: Vec<LuaType>) -> Seq<LuaTy>
    decreases v, 0int,
{
    Seq::new(
        v.len() as nat,
        |i: int|
            if 0 <= i < v.len() {
                ty_view(v[i])
            } else {
                LuaTy::Nil
            },
    )
}

pub open spec fn strs_view(v: Vec<String>) -> Seq<Seq<char>> {
    Seq::new(v.len() as nat, |i: int| v[i]@)
}

pub open spec fn ty_view(t: LuaType) -> LuaTy
    decreases t, 1int,
{
    match t {
        LuaType::Nil => LuaTy::Nil,
        LuaType::Boolean => LuaTy::Boolean,
        LuaType::Integer => LuaTy::Integer,
        LuaType::Number => LuaTy::Number,
        LuaType::String => LuaTy::String,
        LuaType::Table => LuaTy::Table,
        LuaType::Function => LuaTy::Function,
        LuaType::Any => LuaTy::Any,
        LuaType::Array(inner) => LuaTy::Array(Box::new(ty_view(*inner))),
        LuaType::Optional(inner) => LuaTy::Optional(Box::new(ty_view(*inner))),
        LuaType::TypedTable(k, v) => LuaTy::TypedTable(Box::new(ty_view(*k)), Box::new(ty_view(*v))),
        LuaType::Class(name) => LuaTy::Class(name@),
        LuaType::StringLiteral(items) => LuaTy::StringLiteral(strs_view(items)),
        LuaType::Union(items) => LuaTy::Union(tys_view(items)),
        LuaType::Thread => LuaTy::Thread,
        LuaType::Variadic(inner) => LuaTy::Variadic(Box::new(ty_view(*inner))),
        LuaType::FunctionSig { params, returns: rets } => LuaTy::FunctionSig { params: tys_view(params), returns: tys_view(rets) },
    }
}

impl View for LuaType {
    type V = LuaTy;

    open spec fn view(&self) -> LuaTy {
        ty_view(*self)
    }
}

/// The views of a list of types.
pub open spec fn seq_views(s: Seq<LuaType>) -> Seq<LuaTy> {
    Seq::new(s.len(), |i: int| s[i]@)
}

/// Deep equality of two Lua types, by their values.
pub fn ty_eq(a: &LuaType, b: &LuaType) -> (r: bool)
    ensures
        r == (a@ == b@),
    decreases a,
{
    match (a, b) {
        (LuaType::Nil, LuaType::Nil) => true,
        (LuaType::Boolean, LuaType::Boolean) => true,
        (LuaType::Integer, LuaType::Integer) => true,
        (LuaType::Number, LuaType::Number) => true,
        (LuaType::String, LuaType::String) => true,
        (LuaType::Table, LuaType::Table) => true,
        (LuaType::Function, LuaType::Function) => true,
        (LuaType::Any, LuaType::Any) => true,
        (LuaType::Thread, LuaType::Thread) => true,
        (LuaType::Array(x), LuaType::Array(y)) => ty_eq(x, y),
        (LuaType::Optional(x), LuaType::Optional(y)) => ty_eq(x, y),
        (LuaType::Variadic(x), LuaType::Variadic(y)) => ty_eq(x, y),
        (LuaType::TypedTable(k1, v1), LuaType::TypedTable(k2, v2)) => ty_eq(k1, k2) && ty_eq(v1, v2),
        (LuaType::Class(x), LuaType::Class(y)) => *x == *y,
        (LuaType::StringLiteral(x), LuaType::StringLiteral(y)) => strs_eq(x, y),
        (LuaType::Union(x), LuaType::Union(y)) => tys_eq(x, y),
        (
            LuaType::FunctionSig { params: p1, returns: r1 },
            LuaType::FunctionSig { params: p2, returns: r2 },
        ) => tys_eq(p1, p2) && tys_eq(r1, r2),
        _ => false,
    }
}

fn tys_eq(a: &Vec<LuaType>, b: &Vec<LuaType>) -> (r: bool)
    ensures
        r == (tys_view(*a) == tys_view(*b)),
    decreases a,
{
    if a.len() != b.len() {
        assert(tys_view(*a).len() != tys_view(*b).len());
        return false;
    }
    let mut i: usize = 0;
    while i < a.len()
        invariant
            a.len() == b.len(),
            i <= a.len(),
            forall|j: int| 0 <= j < i ==> tys_view(*a)[j] == tys_view(*b)[j],
        decreases a.len() - i,
    {
        if !ty_eq(&a[i], &b[i]) {
            assert(tys_view(*a)[i as int] != tys_view(*b)[i as int]);
            return false;
        }
        i += 1;
    }
    assert(tys_view(*a) =~= tys_view(*b));
    true
}

fn strs_eq(a: &Vec<String>, b: &Vec<String>) -> (r: bool)
    ensures
        r == (strs_view(*a) == strs_view(*b)),
{
    if a.len() != b.len() {
        assert(strs_view(*a).len() != strs_view(*b).len());
        return false;
    }
    let mut i: usize = 0;
    while i < a.len()
        invariant
            a.len() == b.len(),
            i <= a.len(),
            forall|j: int| 0 <= j < i ==> strs_view(*a)[j] == strs_view(*b)[j],
        decreases a.len() - i,
    {
        if a[i] != b[i] {
            assert(strs_view(*a)[i as int] != strs_view(*b)[i as int]);
            return false;
        }
        i += 1;
    }
    assert(strs_view(*a) =~= strs_view(*b));
    true
}

/// A copy of `t` with the same value.
pub fn ty_clone(t: &LuaType) -> (r: LuaType)
    ensures
        r@ == t@,
    decreases t,
{
    match t {
        LuaType::Nil => LuaType::Nil,
        LuaType::Boolean => LuaType::Boolean,
        LuaType::Integer => LuaType::Integer,
        LuaType::Number => LuaType::Number,
        LuaType::String => LuaType::String,
        LuaType::Table => LuaType::Table,
        LuaType::Function => LuaType::Function,
        LuaType::Any => LuaType::Any,
        LuaType::Thread => LuaType::Thread,
        LuaType::Array(x) => LuaType::Array(Box::new(ty_clone(x))),
        LuaType::Optional(x) => LuaType::Optional(Box::new(ty_clone(x))),
        LuaType::Variadic(x) => LuaType::Variadic(Box::new(ty_clone(x))),
        LuaType::TypedTable(k, v) => LuaType::TypedTable(Box::new(ty_clone(k)), Box::new(ty_clone(v))),
        LuaType::Class(x) => LuaType::Class(x.clone()),
        LuaType::StringLiteral(x) => LuaType::StringLiteral(strs_clone(x)),
        LuaType::Union(x) => LuaType::Union(tys_clone(x)),
        LuaType::FunctionSig { params, returns: rets } => LuaType::FunctionSig { params: tys_clone(params), returns: tys_clone(rets) },
    }
}

pub fn tys_clone(v: &Vec<LuaType>) -> (r: Vec<LuaType>)
    ensures
        tys_view(r) == tys_view(*v),
    decreases v,
{
    let mut out: Vec<LuaType> = Vec::new();
    let mut i: usize = 0;
    while i < v.len()
        invariant
            i <= v.len(),
            out.len() == i,
            forall|j: int| 0 <= j < i ==> out[j]@ == v[j]@,
        decreases v.len() - i,
    {
        out.push(ty_clone(&v[i]));
        i += 1;
    }
    assert(tys_view(out) =~= tys_view(*v));
    out
}

fn strs_clone(v: &Vec<String>) -> (r: Vec<String>)
    ensures
        strs_view(r) == strs_view(*v),
{
    let mut out: Vec<String> = Vec::new();
    let mut i: usize = 0;
    while i < v.len()
        invariant
            i <= v.len(),
            out.len() == i,
            forall|j: int| 0 <= j < i ==> out[j]@ == v[j]@,
        decreases v.len() - i,
    {
        out.push(v[i].clone());
        i += 1;
    }
    assert(strs_view(out) =~= strs_view(*v));
    out
}

impl Clone for LuaType {
    fn clone(&self) -> (r: Self)
        ensures
            r@ == self@,
    {
        ty_clone(self)
    }
}

/// A parameter in a Lua method/function.
#[derive(Debug, Clone, PartialEq, Eq)]
pub struct LuaParam {
    pub name: String,
    pub ty: LuaType,
}

/// A return value from a Lua method/function.
#[derive(Debug, Clone, PartialEq, Eq)]
pub struct LuaReturn {
    pub ty: LuaType,
    pub name: Option<String>,
}

impl From<LuaType> for LuaReturn {
    fn from(ty: LuaType) -> (r: Self) {
        LuaReturn { ty, name: None }
    }
}

impl vstd::std_specs::convert::FromSpecImpl<LuaType> for LuaReturn {
    open spec fn obeys_from_spec() -> bool {
        true
    }

    open spec fn from_spec(ty: LuaType) -> Self {
        LuaReturn { ty, name: None }
    }
}

impl LuaReturn {
    /// A return value of type `ty` labelled `name`.
    pub fn named(ty: LuaType, name: &str) -> (r: Self)
        ensures
            r.ty == ty,
            r.name matches Some(n) && n@ == name@,
    {
        LuaReturn { ty, name: Some(text::owned(name)) }
    }
}

/// Whether a method takes `self` or is static.
#[derive(Debug, Clone, Copy, PartialEq, Eq, Structural)]
pub enum MethodKind {
    Method,
    Function,
}

/// A method or function on a Lua class.
#[derive(Debug, Clone)]
pub struct LuaMethod {
    pub name: String,
    pub kind: MethodKind,
    pub is_async: bool,
    pub params: Vec<LuaParam>,
    /// Multiple return values (empty = void/nil).
    pub returns: Vec<LuaReturn>,
    pub doc: Option<String>,
}

/// A field on a Lua class.
#[derive(Debug, Clone)]
pub struct LuaField {
    pub name: String,
    pub ty: LuaType,
    pub writable: bool,
    pub doc: Option<String>,
}

/// A complete Lua class extracted from a `impl UserData` block.
#[derive(Debug, Clone)]
pub struct LuaClass {
    pub name: String,
    pub doc: Option<String>,
    pub fields: Vec<LuaField>,
    pub methods: Vec<LuaMethod>,
}

/// A Lua type alias, typically from a Rust enum with `IntoLua`/`FromLua`.
/// Generates `---@alias Name "variant1" | "variant2" | ...`, and, when the
/// Rust variant names are known, a `NameActions` constructor class.
#[derive(Debug, Clone)]
pub struct LuaEnum {
    pub name: String,
    pub doc: Option<String>,
    pub variants: Vec<String>,
    pub pascal_variants: Vec<String>,
}

/// A standalone function registered on a table or as a global.
#[derive(Debug, Clone)]
pub struct LuaFunction {
    pub name: String,
    pub is_async: bool,
    pub params: Vec<LuaParam>,
    /// Multiple return values (empty = void/nil).
    pub returns: Vec<LuaReturn>,
    pub doc: Option<String>,
}

/// A module (table namespace) containing functions and values.
#[derive(Debug, Clone)]
pub struct LuaModule {
    pub name: String,
    pub doc: Option<String>,
    pub functions: Vec<LuaFunction>,
    pub fields: Vec<LuaField>,
}

/// The complete Lua API surface extracted from a crate.
#[derive(Debug, Clone, Default)]
pub struct LuaApi {
    pub classes: Vec<LuaClass>,
    pub enums: Vec<LuaEnum>,
    pub modules: Vec<LuaModule>,
    pub global_fields: Vec<LuaField>,
    pub global_functions: Vec<LuaFunction>,
}

} // verus!
