//! Case conversion of Rust names for Lua, done by the `heck` crate.
use vstd::prelude::*;

use heck::{ToSnakeCase, ToUpperCamelCase};

use crate::text::owned;

verus! {

/// What `heck`'s `to_snake_case` gives for a text.
pub uninterp spec fn snake_case(s: Seq<char>) -> Seq<char>;

/// What `heck`'s `to_upper_camel_case` gives for a text.
pub uninterp spec fn upper_camel_case(s: Seq<char>) -> Seq<char>;

/// Calls `heck::ToSnakeCase::to_snake_case` on `s`. Trusted: its result is
/// `snake_case` of the text of `s`, that is, a function of `s` alone; the
/// word splitting itself is left unstated.
#[verifier::external_body]
pub(crate) fn heck_snake_case(s: &str) -> (r: String)
    ensures
        r@ == snake_case(s@),
{
    s.to_snake_case()
}

/// Calls `heck::ToUpperCamelCase::to_upper_camel_case` on `s`. Trusted: its
/// result is `upper_camel_case` of the text of `s`, a function of `s` alone;
/// the word splitting itself is left unstated.
#[verifier::external_body]
fn heck_upper_camel_case(s: &str) -> (r: String)
    ensures
        r@ == upper_camel_case(s@),
{
    s.to_upper_camel_case()
}

/// Convert a Rust enum variant name to a Lua-friendly string: PascalCase
/// becomes snake_case, the common Lua convention (`HTTPResponse` becomes
/// `http_response`).
pub fn variant_to_lua_string(name: &str) -> (r: String)
    ensures
        r@ == snake_case(name@),
{
    heck_snake_case(name)
}

/// The module name of table field `field_name` nested in module `parent`:
/// `parent__FieldName`.
pub fn nested_module_name(parent: &str, field_name: &str) -> (r: String)
    ensures
        r@ == parent@ + "__"@ + upper_camel_case(field_name@),
{
    let mut out = owned(parent);
    out.append("__");
    let camel = heck_upper_camel_case(field_name);
    out.append(camel.as_str());
    out
}

} // verus!
