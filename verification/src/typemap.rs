//! Mapping fully qualified Rust type paths to Lua types.
use vstd::prelude::*;

use crate::text::{after_last, after_last_exec, ends_with, ends_with_exec, owned, str_eq};
use crate::{seq_views, ty_clone, LuaTy, LuaType};

verus! {

/// Paths that map to `string`.
pub open spec fn is_string_path(p: Seq<char>) -> bool {
    p == "std::string::String"@
    || p == "alloc::string::String"@
    || p == "&str"@
    || p == "str"@
    || p == "std::path::PathBuf"@
    || p == "alloc::path::PathBuf"@
    || p == "std::path::Path"@
    || p == "std::ffi::OsString"@
    || p == "std::ffi::OsStr"@
    || p == "std::ffi::CString"@
    || p == "std::ffi::CStr"@
    || p == "core::ffi::CStr"@
    || p == "mlua::string::String"@
    || p == "mlua::String"@
    || p == "mlua::BString"@
    || p == "mlua::prelude::LuaString"@
    || p == "mlua::error::Error"@
    || p == "mlua::Error"@
    || p == "mlua::prelude::LuaError"@
    || p == "bytes::Bytes"@
    || p == "bytes::BytesMut"@
    || p == "bytes::bytes::Bytes"@
    || p == "bytes::bytes_mut::BytesMut"@
    || p == "compact_str::CompactString"@
    || p == "smol_str::SmolStr"@
    || p == "ecow::EcoString"@
    || p == "arcstr::ArcStr"@
    || p == "flexstr::SharedStr"@
    || p == "flexstr::LocalStr"@
    || p == "kstring::KString"@
    || p == "kstring::KStringRef"@
    || p == "bstr::BString"@
    || p == "bstr::BStr"@
    || p == "uuid::Uuid"@
    || p == "url::Url"@
    || p == "chrono::NaiveDateTime"@
    || p == "chrono::NaiveDate"@
    || p == "chrono::NaiveTime"@
    || p == "chrono::DateTime"@
}

fn is_string_path_exec(p: &str) -> (r: bool)
    ensures
        r == is_string_path(p@),
{
    str_eq(p, "std::string::String")
        || str_eq(p, "alloc::string::String")
        || str_eq(p, "&str")
        || str_eq(p, "str")
        || str_eq(p, "std::path::PathBuf")
        || str_eq(p, "alloc::path::PathBuf")
        || str_eq(p, "std::path::Path")
        || str_eq(p, "std::ffi::OsString")
        || str_eq(p, "std::ffi::OsStr")
        || str_eq(p, "std::ffi::CString")
        || str_eq(p, "std::ffi::CStr")
        || str_eq(p, "core::ffi::CStr")
        || str_eq(p, "mlua::string::String")
        || str_eq(p, "mlua::String")
        || str_eq(p, "mlua::BString")
        || str_eq(p, "mlua::prelude::LuaString")
        || str_eq(p, "mlua::error::Error")
        || str_eq(p, "mlua::Error")
        || str_eq(p, "mlua::prelude::LuaError")
        || str_eq(p, "bytes::Bytes")
        || str_eq(p, "bytes::BytesMut")
        || str_eq(p, "bytes::bytes::Bytes")
        || str_eq(p, "bytes::bytes_mut::BytesMut")
        || str_eq(p, "compact_str::CompactString")
        || str_eq(p, "smol_str::SmolStr")
        || str_eq(p, "ecow::EcoString")
        || str_eq(p, "arcstr::ArcStr")
        || str_eq(p, "flexstr::SharedStr")
        || str_eq(p, "flexstr::LocalStr")
        || str_eq(p, "kstring::KString")
        || str_eq(p, "kstring::KStringRef")
        || str_eq(p, "bstr::BString")
        || str_eq(p, "bstr::BStr")
        || str_eq(p, "uuid::Uuid")
        || str_eq(p, "url::Url")
        || str_eq(p, "chrono::NaiveDateTime")
        || str_eq(p, "chrono::NaiveDate")
        || str_eq(p, "chrono::NaiveTime")
        || str_eq(p, "chrono::DateTime")
}

/// Paths that map to `integer`.
pub open spec fn is_integer_path(p: Seq<char>) -> bool {
    p == "i8"@
    || p == "i16"@
    || p == "i32"@
    || p == "i64"@
    || p == "i128"@
    || p == "isize"@
    || p == "u8"@
    || p == "u16"@
    || p == "u32"@
    || p == "u64"@
    || p == "u128"@
    || p == "usize"@
    || p == "std::num::NonZeroI8"@
    || p == "std::num::NonZeroI16"@
    || p == "std::num::NonZeroI32"@
    || p == "std::num::NonZeroI64"@
    || p == "std::num::NonZeroI128"@
    || p == "std::num::NonZeroIsize"@
    || p == "std::num::NonZeroU8"@
    || p == "std::num::NonZeroU16"@
    || p == "std::num::NonZeroU32"@
    || p == "std::num::NonZeroU64"@
    || p == "std::num::NonZeroU128"@
    || p == "std::num::NonZeroUsize"@
    || p == "core::num::NonZeroI8"@
    || p == "core::num::NonZeroI16"@
    || p == "core::num::NonZeroI32"@
    || p == "core::num::NonZeroI64"@
    || p == "core::num::NonZeroI128"@
    || p == "core::num::NonZeroIsize"@
    || p == "core::num::NonZeroU8"@
    || p == "core::num::NonZeroU16"@
    || p == "core::num::NonZeroU32"@
    || p == "core::num::NonZeroU64"@
    || p == "core::num::NonZeroU128"@
    || p == "core::num::NonZeroUsize"@
    || p == "std::num::Wrapping"@
    || p == "core::num::Wrapping"@
    || p == "std::num::Saturating"@
    || p == "core::num::Saturating"@
    || p == "std::sync::atomic::AtomicI8"@
    || p == "std::sync::atomic::AtomicI16"@
    || p == "std::sync::atomic::AtomicI32"@
    || p == "std::sync::atomic::AtomicI64"@
    || p == "std::sync::atomic::AtomicIsize"@
    || p == "std::sync::atomic::AtomicU8"@
    || p == "std::sync::atomic::AtomicU16"@
    || p == "std::sync::atomic::AtomicU32"@
    || p == "std::sync::atomic::AtomicU64"@
    || p == "std::sync::atomic::AtomicUsize"@
    || p == "core::sync::atomic::AtomicI8"@
    || p == "core::sync::atomic::AtomicI16"@
    || p == "core::sync::atomic::AtomicI32"@
    || p == "core::sync::atomic::AtomicI64"@
    || p == "core::sync::atomic::AtomicIsize"@
    || p == "core::sync::atomic::AtomicU8"@
    || p == "core::sync::atomic::AtomicU16"@
    || p == "core::sync::atomic::AtomicU32"@
    || p == "core::sync::atomic::AtomicU64"@
    || p == "core::sync::atomic::AtomicUsize"@
    || p == "mlua::types::Integer"@
    || p == "mlua::Integer"@
    || p == "mlua::prelude::LuaInteger"@
}

fn is_integer_path_exec(p: &str) -> (r: bool)
    ensures
        r == is_integer_path(p@),
{
    str_eq(p, "i8")
        || str_eq(p, "i16")
        || str_eq(p, "i32")
        || str_eq(p, "i64")
        || str_eq(p, "i128")
        || str_eq(p, "isize")
        || str_eq(p, "u8")
        || str_eq(p, "u16")
        || str_eq(p, "u32")
        || str_eq(p, "u64")
        || str_eq(p, "u128")
        || str_eq(p, "usize")
        || str_eq(p, "std::num::NonZeroI8")
        || str_eq(p, "std::num::NonZeroI16")
        || str_eq(p, "std::num::NonZeroI32")
        || str_eq(p, "std::num::NonZeroI64")
        || str_eq(p, "std::num::NonZeroI128")
        || str_eq(p, "std::num::NonZeroIsize")
        || str_eq(p, "std::num::NonZeroU8")
        || str_eq(p, "std::num::NonZeroU16")
        || str_eq(p, "std::num::NonZeroU32")
        || str_eq(p, "std::num::NonZeroU64")
        || str_eq(p, "std::num::NonZeroU128")
        || str_eq(p, "std::num::NonZeroUsize")
        || str_eq(p, "core::num::NonZeroI8")
        || str_eq(p, "core::num::NonZeroI16")
        || str_eq(p, "core::num::NonZeroI32")
        || str_eq(p, "core::num::NonZeroI64")
        || str_eq(p, "core::num::NonZeroI128")
        || str_eq(p, "core::num::NonZeroIsize")
        || str_eq(p, "core::num::NonZeroU8")
        || str_eq(p, "core::num::NonZeroU16")
        || str_eq(p, "core::num::NonZeroU32")
        || str_eq(p, "core::num::NonZeroU64")
        || str_eq(p, "core::num::NonZeroU128")
        || str_eq(p, "core::num::NonZeroUsize")
        || str_eq(p, "std::num::Wrapping")
        || str_eq(p, "core::num::Wrapping")
        || str_eq(p, "std::num::Saturating")
        || str_eq(p, "core::num::Saturating")
        || str_eq(p, "std::sync::atomic::AtomicI8")
        || str_eq(p, "std::sync::atomic::AtomicI16")
        || str_eq(p, "std::sync::atomic::AtomicI32")
        || str_eq(p, "std::sync::atomic::AtomicI64")
        || str_eq(p, "std::sync::atomic::AtomicIsize")
        || str_eq(p, "std::sync::atomic::AtomicU8")
        || str_eq(p, "std::sync::atomic::AtomicU16")
        || str_eq(p, "std::sync::atomic::AtomicU32")
        || str_eq(p, "std::sync::atomic::AtomicU64")
        || str_eq(p, "std::sync::atomic::AtomicUsize")
        || str_eq(p, "core::sync::atomic::AtomicI8")
        || str_eq(p, "core::sync::atomic::AtomicI16")
        || str_eq(p, "core::sync::atomic::AtomicI32")
        || str_eq(p, "core::sync::atomic::AtomicI64")
        || str_eq(p, "core::sync::atomic::AtomicIsize")
        || str_eq(p, "core::sync::atomic::AtomicU8")
        || str_eq(p, "core::sync::atomic::AtomicU16")
        || str_eq(p, "core::sync::atomic::AtomicU32")
        || str_eq(p, "core::sync::atomic::AtomicU64")
        || str_eq(p, "core::sync::atomic::AtomicUsize")
        || str_eq(p, "mlua::types::Integer")
        || str_eq(p, "mlua::Integer")
        || str_eq(p, "mlua::prelude::LuaInteger")
}

/// Paths that map to `number`.
pub open spec fn is_number_path(p: Seq<char>) -> bool {
    p == "f32"@
    || p == "f64"@
    || p == "mlua::types::Number"@
    || p == "mlua::Number"@
    || p == "mlua::prelude::LuaNumber"@
    || p == "serde_json::Number"@
    || p == "chrono::Duration"@
    || p == "std::time::Duration"@
    || p == "core::time::Duration"@
}

fn is_number_path_exec(p: &str) -> (r: bool)
    ensures
        r == is_number_path(p@),
{
    str_eq(p, "f32")
        || str_eq(p, "f64")
        || str_eq(p, "mlua::types::Number")
        || str_eq(p, "mlua::Number")
        || str_eq(p, "mlua::prelude::LuaNumber")
        || str_eq(p, "serde_json::Number")
        || str_eq(p, "chrono::Duration")
        || str_eq(p, "std::time::Duration")
        || str_eq(p, "core::time::Duration")
}

/// Paths that map to `boolean`.
pub open spec fn is_boolean_path(p: Seq<char>) -> bool {
    p == "bool"@
    || p == "std::sync::atomic::AtomicBool"@
    || p == "core::sync::atomic::AtomicBool"@
}

fn is_boolean_path_exec(p: &str) -> (r: bool)
    ensures
        r == is_boolean_path(p@),
{
    str_eq(p, "bool")
        || str_eq(p, "std::sync::atomic::AtomicBool")
        || str_eq(p, "core::sync::atomic::AtomicBool")
}

/// Paths that map to `unit`.
pub open spec fn is_unit_path(p: Seq<char>) -> bool {
    p == "()"@
}

fn is_unit_path_exec(p: &str) -> (r: bool)
    ensures
        r == is_unit_path(p@),
{
    str_eq(p, "()")
}

/// Paths that map to `table`.
pub open spec fn is_table_path(p: Seq<char>) -> bool {
    p == "mlua::table::Table"@
    || p == "mlua::Table"@
    || p == "mlua::prelude::LuaTable"@
}

fn is_table_path_exec(p: &str) -> (r: bool)
    ensures
        r == is_table_path(p@),
{
    str_eq(p, "mlua::table::Table")
        || str_eq(p, "mlua::Table")
        || str_eq(p, "mlua::prelude::LuaTable")
}

/// Paths that map to `function`.
pub open spec fn is_function_path(p: Seq<char>) -> bool {
    p == "mlua::function::Function"@
    || p == "mlua::Function"@
    || p == "mlua::prelude::LuaFunction"@
}

fn is_function_path_exec(p: &str) -> (r: bool)
    ensures
        r == is_function_path(p@),
{
    str_eq(p, "mlua::function::Function")
        || str_eq(p, "mlua::Function")
        || str_eq(p, "mlua::prelude::LuaFunction")
}

/// Paths that map to `thread`.
pub open spec fn is_thread_path(p: Seq<char>) -> bool {
    p == "mlua::thread::Thread"@
    || p == "mlua::Thread"@
    || p == "mlua::prelude::LuaThread"@
}

fn is_thread_path_exec(p: &str) -> (r: bool)
    ensures
        r == is_thread_path(p@),
{
    str_eq(p, "mlua::thread::Thread")
        || str_eq(p, "mlua::Thread")
        || str_eq(p, "mlua::prelude::LuaThread")
}

/// Paths that map to `dynamic`.
pub open spec fn is_dynamic_path(p: Seq<char>) -> bool {
    p == "mlua::value::Value"@
    || p == "mlua::Value"@
    || p == "mlua::prelude::LuaValue"@
    || p == "mlua::types::LightUserData"@
    || p == "mlua::LightUserData"@
    || p == "mlua::prelude::LuaLightUserData"@
    || p == "mlua::userdata::AnyUserData"@
    || p == "mlua::AnyUserData"@
    || p == "mlua::prelude::LuaAnyUserData"@
    || p == "mlua::multi::MultiValue"@
    || p == "mlua::MultiValue"@
    || p == "mlua::prelude::LuaMultiValue"@
    || p == "serde_json::Value"@
    || p == "serde_json::value::Value"@
    || p == "anyhow::Error"@
    || p == "eyre::Report"@
    || p == "eyre::EyreReport"@
}

fn is_dynamic_path_exec(p: &str) -> (r: bool)
    ensures
        r == is_dynamic_path(p@),
{
    str_eq(p, "mlua::value::Value")
        || str_eq(p, "mlua::Value")
        || str_eq(p, "mlua::prelude::LuaValue")
        || str_eq(p, "mlua::types::LightUserData")
        || str_eq(p, "mlua::LightUserData")
        || str_eq(p, "mlua::prelude::LuaLightUserData")
        || str_eq(p, "mlua::userdata::AnyUserData")
        || str_eq(p, "mlua::AnyUserData")
        || str_eq(p, "mlua::prelude::LuaAnyUserData")
        || str_eq(p, "mlua::multi::MultiValue")
        || str_eq(p, "mlua::MultiValue")
        || str_eq(p, "mlua::prelude::LuaMultiValue")
        || str_eq(p, "serde_json::Value")
        || str_eq(p, "serde_json::value::Value")
        || str_eq(p, "anyhow::Error")
        || str_eq(p, "eyre::Report")
        || str_eq(p, "eyre::EyreReport")
}

/// Paths that map to `sequence`.
pub open spec fn is_sequence_path(p: Seq<char>) -> bool {
    p == "std::vec::Vec"@
    || p == "alloc::vec::Vec"@
    || p == "std::collections::HashSet"@
    || p == "std::collections::hash_set::HashSet"@
    || p == "std::collections::BTreeSet"@
    || p == "std::collections::btree_set::BTreeSet"@
    || p == "std::collections::VecDeque"@
    || p == "std::collections::vec_deque::VecDeque"@
    || p == "std::collections::LinkedList"@
    || p == "std::collections::linked_list::LinkedList"@
    || p == "arrayvec::ArrayVec"@
    || p == "smallvec::SmallVec"@
    || p == "tinyvec::TinyVec"@
    || p == "tinyvec::ArrayVec"@
    || p == "thin_vec::ThinVec"@
    || p == "indexmap::IndexSet"@
    || p == "indexmap::set::IndexSet"@
    || p == "dashmap::DashSet"@
    || p == "rustc_hash::FxHashSet"@
    || p == "rustc_hash::set::FxHashSet"@
    || p == "fxhash::FxHashSet"@
}

fn is_sequence_path_exec(p: &str) -> (r: bool)
    ensures
        r == is_sequence_path(p@),
{
    str_eq(p, "std::vec::Vec")
        || str_eq(p, "alloc::vec::Vec")
        || str_eq(p, "std::collections::HashSet")
        || str_eq(p, "std::collections::hash_set::HashSet")
        || str_eq(p, "std::collections::BTreeSet")
        || str_eq(p, "std::collections::btree_set::BTreeSet")
        || str_eq(p, "std::collections::VecDeque")
        || str_eq(p, "std::collections::vec_deque::VecDeque")
        || str_eq(p, "std::collections::LinkedList")
        || str_eq(p, "std::collections::linked_list::LinkedList")
        || str_eq(p, "arrayvec::ArrayVec")
        || str_eq(p, "smallvec::SmallVec")
        || str_eq(p, "tinyvec::TinyVec")
        || str_eq(p, "tinyvec::ArrayVec")
        || str_eq(p, "thin_vec::ThinVec")
        || str_eq(p, "indexmap::IndexSet")
        || str_eq(p, "indexmap::set::IndexSet")
        || str_eq(p, "dashmap::DashSet")
        || str_eq(p, "rustc_hash::FxHashSet")
        || str_eq(p, "rustc_hash::set::FxHashSet")
        || str_eq(p, "fxhash::FxHashSet")
}

/// Paths that map to `mapping`.
pub open spec fn is_mapping_path(p: Seq<char>) -> bool {
    p == "std::collections::HashMap"@
    || p == "std::collections::hash_map::HashMap"@
    || p == "std::collections::BTreeMap"@
    || p == "std::collections::btree_map::BTreeMap"@
    || p == "indexmap::IndexMap"@
    || p == "indexmap::map::IndexMap"@
    || p == "dashmap::DashMap"@
    || p == "rustc_hash::FxHashMap"@
    || p == "rustc_hash::map::FxHashMap"@
    || p == "fxhash::FxHashMap"@
    || p == "evmap::ReadHandle"@
    || p == "evmap::WriteHandle"@
}

fn is_mapping_path_exec(p: &str) -> (r: bool)
    ensures
        r == is_mapping_path(p@),
{
    str_eq(p, "std::collections::HashMap")
        || str_eq(p, "std::collections::hash_map::HashMap")
        || str_eq(p, "std::collections::BTreeMap")
        || str_eq(p, "std::collections::btree_map::BTreeMap")
        || str_eq(p, "indexmap::IndexMap")
        || str_eq(p, "indexmap::map::IndexMap")
        || str_eq(p, "dashmap::DashMap")
        || str_eq(p, "rustc_hash::FxHashMap")
        || str_eq(p, "rustc_hash::map::FxHashMap")
        || str_eq(p, "fxhash::FxHashMap")
        || str_eq(p, "evmap::ReadHandle")
        || str_eq(p, "evmap::WriteHandle")
}

/// Paths that map to `json_map`.
pub open spec fn is_json_map_path(p: Seq<char>) -> bool {
    p == "serde_json::Map"@
    || p == "serde_json::map::Map"@
}

fn is_json_map_path_exec(p: &str) -> (r: bool)
    ensures
        r == is_json_map_path(p@),
{
    str_eq(p, "serde_json::Map")
        || str_eq(p, "serde_json::map::Map")
}

/// Paths that map to `option`.
pub open spec fn is_option_path(p: Seq<char>) -> bool {
    p == "std::option::Option"@
    || p == "core::option::Option"@
}

fn is_option_path_exec(p: &str) -> (r: bool)
    ensures
        r == is_option_path(p@),
{
    str_eq(p, "std::option::Option")
        || str_eq(p, "core::option::Option")
}

/// Paths that map to `variadic`.
pub open spec fn is_variadic_path(p: Seq<char>) -> bool {
    p == "mlua::types::Variadic"@
    || p == "mlua::Variadic"@
    || p == "mlua::prelude::LuaVariadic"@
}

fn is_variadic_path_exec(p: &str) -> (r: bool)
    ensures
        r == is_variadic_path(p@),
{
    str_eq(p, "mlua::types::Variadic")
        || str_eq(p, "mlua::Variadic")
        || str_eq(p, "mlua::prelude::LuaVariadic")
}

/// Paths that map to `wrapper`.
pub open spec fn is_wrapper_path(p: Seq<char>) -> bool {
    p == "std::result::Result"@
    || p == "core::result::Result"@
    || p == "std::boxed::Box"@
    || p == "alloc::boxed::Box"@
    || p == "std::sync::Arc"@
    || p == "alloc::sync::Arc"@
    || p == "std::rc::Rc"@
    || p == "alloc::rc::Rc"@
    || p == "std::sync::Mutex"@
    || p == "std::sync::RwLock"@
    || p == "std::sync::MutexGuard"@
    || p == "std::sync::RwLockReadGuard"@
    || p == "std::sync::RwLockWriteGuard"@
    || p == "parking_lot::Mutex"@
    || p == "parking_lot::RwLock"@
    || p == "parking_lot::MutexGuard"@
    || p == "parking_lot::RwLockReadGuard"@
    || p == "parking_lot::RwLockWriteGuard"@
    || p == "tokio::sync::Mutex"@
    || p == "tokio::sync::RwLock"@
    || p == "tokio::sync::MutexGuard"@
    || p == "tokio::sync::RwLockReadGuard"@
    || p == "tokio::sync::RwLockWriteGuard"@
    || p == "std::cell::Cell"@
    || p == "std::cell::RefCell"@
    || p == "std::cell::Ref"@
    || p == "std::cell::RefMut"@
    || p == "std::borrow::Cow"@
    || p == "alloc::borrow::Cow"@
    || p == "std::pin::Pin"@
    || p == "core::pin::Pin"@
    || p == "std::mem::MaybeUninit"@
    || p == "core::mem::MaybeUninit"@
    || p == "std::mem::ManuallyDrop"@
    || p == "core::mem::ManuallyDrop"@
    || p == "std::cell::OnceCell"@
    || p == "std::sync::OnceLock"@
    || p == "std::sync::LazyLock"@
    || p == "std::cell::LazyCell"@
    || p == "once_cell::sync::OnceCell"@
    || p == "once_cell::sync::Lazy"@
    || p == "once_cell::unsync::OnceCell"@
    || p == "once_cell::unsync::Lazy"@
    || p == "arc_swap::ArcSwap"@
    || p == "arc_swap::ArcSwapOption"@
    || p == "arc_swap::ArcSwapAny"@
    || p == "arc_swap::Guard"@
    || p == "arc_swap::access::Guard"@
    || p == "left_right::ReadHandle"@
    || p == "left_right::WriteHandle"@
    || p == "left_right::ReadGuard"@
}

fn is_wrapper_path_exec(p: &str) -> (r: bool)
    ensures
        r == is_wrapper_path(p@),
{
    str_eq(p, "std::result::Result")
        || str_eq(p, "core::result::Result")
        || str_eq(p, "std::boxed::Box")
        || str_eq(p, "alloc::boxed::Box")
        || str_eq(p, "std::sync::Arc")
        || str_eq(p, "alloc::sync::Arc")
        || str_eq(p, "std::rc::Rc")
        || str_eq(p, "alloc::rc::Rc")
        || str_eq(p, "std::sync::Mutex")
        || str_eq(p, "std::sync::RwLock")
        || str_eq(p, "std::sync::MutexGuard")
        || str_eq(p, "std::sync::RwLockReadGuard")
        || str_eq(p, "std::sync::RwLockWriteGuard")
        || str_eq(p, "parking_lot::Mutex")
        || str_eq(p, "parking_lot::RwLock")
        || str_eq(p, "parking_lot::MutexGuard")
        || str_eq(p, "parking_lot::RwLockReadGuard")
        || str_eq(p, "parking_lot::RwLockWriteGuard")
        || str_eq(p, "tokio::sync::Mutex")
        || str_eq(p, "tokio::sync::RwLock")
        || str_eq(p, "tokio::sync::MutexGuard")
        || str_eq(p, "tokio::sync::RwLockReadGuard")
        || str_eq(p, "tokio::sync::RwLockWriteGuard")
        || str_eq(p, "std::cell::Cell")
        || str_eq(p, "std::cell::RefCell")
        || str_eq(p, "std::cell::Ref")
        || str_eq(p, "std::cell::RefMut")
        || str_eq(p, "std::borrow::Cow")
        || str_eq(p, "alloc::borrow::Cow")
        || str_eq(p, "std::pin::Pin")
        || str_eq(p, "core::pin::Pin")
        || str_eq(p, "std::mem::MaybeUninit")
        || str_eq(p, "core::mem::MaybeUninit")
        || str_eq(p, "std::mem::ManuallyDrop")
        || str_eq(p, "core::mem::ManuallyDrop")
        || str_eq(p, "std::cell::OnceCell")
        || str_eq(p, "std::sync::OnceLock")
        || str_eq(p, "std::sync::LazyLock")
        || str_eq(p, "std::cell::LazyCell")
        || str_eq(p, "once_cell::sync::OnceCell")
        || str_eq(p, "once_cell::sync::Lazy")
        || str_eq(p, "once_cell::unsync::OnceCell")
        || str_eq(p, "once_cell::unsync::Lazy")
        || str_eq(p, "arc_swap::ArcSwap")
        || str_eq(p, "arc_swap::ArcSwapOption")
        || str_eq(p, "arc_swap::ArcSwapAny")
        || str_eq(p, "arc_swap::Guard")
        || str_eq(p, "arc_swap::access::Guard")
        || str_eq(p, "left_right::ReadHandle")
        || str_eq(p, "left_right::WriteHandle")
        || str_eq(p, "left_right::ReadGuard")
}

/// The `i`-th type argument, or `default` when there is none.
pub open spec fn arg_or(args: Seq<LuaTy>, i: int, default: LuaTy) -> LuaTy {
    if 0 <= i < args.len() {
        args[i]
    } else {
        default
    }
}

/// The Lua type of the Rust type at `path` applied to the Lua types `args`
/// of its type arguments.
pub open spec fn map_type_path(path: Seq<char>, args: Seq<LuaTy>) -> LuaTy {
    if is_string_path(path) {
        LuaTy::String
    } else if is_integer_path(path) {
        LuaTy::Integer
    } else if is_number_path(path) {
        LuaTy::Number
    } else if is_boolean_path(path) {
        LuaTy::Boolean
    } else if is_unit_path(path) {
        LuaTy::Nil
    } else if is_table_path(path) {
        LuaTy::Table
    } else if is_function_path(path) {
        LuaTy::Function
    } else if is_thread_path(path) {
        LuaTy::Thread
    } else if is_dynamic_path(path) {
        LuaTy::Any
    } else if is_sequence_path(path) {
        LuaTy::Array(Box::new(arg_or(args, 0, LuaTy::Any)))
    } else if is_mapping_path(path) {
        LuaTy::TypedTable(Box::new(arg_or(args, 0, LuaTy::Any)), Box::new(arg_or(args, 1, LuaTy::Any)))
    } else if is_json_map_path(path) {
        LuaTy::TypedTable(
            Box::new(arg_or(args, 0, LuaTy::String)),
            Box::new(arg_or(args, 1, LuaTy::Any)),
        )
    } else if is_option_path(path) {
        let inner = arg_or(args, 0, LuaTy::Any);
        if inner is Optional {
            inner
        } else {
            LuaTy::Optional(Box::new(inner))
        }
    } else if is_variadic_path(path) {
        LuaTy::Variadic(Box::new(arg_or(args, 0, LuaTy::Any)))
    } else if is_wrapper_path(path) {
        arg_or(args, 0, LuaTy::Any)
    } else {
        heuristic_type(path, args)
    }
}

/// The guess for a path that no table names, from its last segment and
/// the number of type arguments.
pub open spec fn heuristic_type(path: Seq<char>, args: Seq<LuaTy>) -> LuaTy {
    let last = after_last(path, "::"@);
    if args.len() == 0 && (ends_with(last, "String"@) || ends_with(last, "Str"@)) && last
        != "String"@ {
        LuaTy::String
    } else if ends_with(last, "Vec"@) && args.len() == 1 {
        LuaTy::Array(Box::new(args[0]))
    } else if ends_with(last, "Map"@) && args.len() >= 2 {
        LuaTy::TypedTable(Box::new(args[0]), Box::new(args[1]))
    } else if ends_with(last, "Set"@) && args.len() == 1 {
        LuaTy::Array(Box::new(args[0]))
    } else if args.len() == 1 && (ends_with(last, "Mutex"@) || ends_with(last, "RwLock"@)
        || ends_with(last, "Lock"@) || ends_with(last, "Guard"@)) {
        args[0]
    } else {
        LuaTy::Class(last)
    }
}

fn arg_or_exec(args: &[LuaType], i: usize, default: LuaType) -> (r: LuaType)
    ensures
        r@ == arg_or(seq_views(args@), i as int, default@),
{
    if i < args.len() {
        ty_clone(&args[i])
    } else {
        default
    }
}

/// Maps a fully-qualified Rust type path to a Lua type.
///
/// `type_args` are the Lua types of the path's type arguments, already
/// mapped by the caller.
pub fn map_rust_type(rust_type: &str, type_args: &[LuaType]) -> (r: LuaType)
    ensures
        r@ == map_type_path(rust_type@, seq_views(type_args@)),
{
    let p = rust_type;
    if is_string_path_exec(p) {
        LuaType::String
    } else if is_integer_path_exec(p) {
        LuaType::Integer
    } else if is_number_path_exec(p) {
        LuaType::Number
    } else if is_boolean_path_exec(p) {
        LuaType::Boolean
    } else if is_unit_path_exec(p) {
        LuaType::Nil
    } else if is_table_path_exec(p) {
        LuaType::Table
    } else if is_function_path_exec(p) {
        LuaType::Function
    } else if is_thread_path_exec(p) {
        LuaType::Thread
    } else if is_dynamic_path_exec(p) {
        LuaType::Any
    } else if is_sequence_path_exec(p) {
        LuaType::Array(Box::new(arg_or_exec(type_args, 0, LuaType::Any)))
    } else if is_mapping_path_exec(p) {
        let k = arg_or_exec(type_args, 0, LuaType::Any);
        let v = arg_or_exec(type_args, 1, LuaType::Any);
        LuaType::TypedTable(Box::new(k), Box::new(v))
    } else if is_json_map_path_exec(p) {
        let k = arg_or_exec(type_args, 0, LuaType::String);
        let v = arg_or_exec(type_args, 1, LuaType::Any);
        LuaType::TypedTable(Box::new(k), Box::new(v))
    } else if is_option_path_exec(p) {
        let inner = arg_or_exec(type_args, 0, LuaType::Any);
        match inner {
            LuaType::Optional(_) => inner,
            _ => LuaType::Optional(Box::new(inner)),
        }
    } else if is_variadic_path_exec(p) {
        LuaType::Variadic(Box::new(arg_or_exec(type_args, 0, LuaType::Any)))
    } else if is_wrapper_path_exec(p) {
        arg_or_exec(type_args, 0, LuaType::Any)
    } else {
        heuristic_type_match(p, type_args)
    }
}

/// Heuristic fallback for types not explicitly mapped (see
/// [`heuristic_type`]).
pub fn heuristic_type_match(rust_type: &str, type_args: &[LuaType]) -> (r: LuaType)
    ensures
        r@ == heuristic_type(rust_type@, seq_views(type_args@)),
{
    let last = after_last_exec(rust_type, "::");
    let n = type_args.len();
    if n == 0 && (ends_with_exec(last, "String") || ends_with_exec(last, "Str")) && !str_eq(
        last,
        "String",
    ) {
        return LuaType::String;
    }
    if ends_with_exec(last, "Vec") && n == 1 {
        return LuaType::Array(Box::new(ty_clone(&type_args[0])));
    }
    if ends_with_exec(last, "Map") && n >= 2 {
        return LuaType::TypedTable(
            Box::new(ty_clone(&type_args[0])),
            Box::new(ty_clone(&type_args[1])),
        );
    }
    if ends_with_exec(last, "Set") && n == 1 {
        return LuaType::Array(Box::new(ty_clone(&type_args[0])));
    }
    if n == 1 && (ends_with_exec(last, "Mutex") || ends_with_exec(last, "RwLock")
        || ends_with_exec(last, "Lock") || ends_with_exec(last, "Guard")) {
        return ty_clone(&type_args[0]);
    }
    LuaType::Class(owned(last))
}

} // verus!
