use mlua_typegen::assemble::{dedupe_api, dedupe_fields, upsert_module, writable_field};
use mlua_typegen::codegen::{generate_stubs, generate_stubs_for};
use mlua_typegen::driver::{extract_bool_flag, extract_flag, make_compiler_args};
use mlua_typegen::normalize::normalize_api_lua_type;
use mlua_typegen::{make_union, CodegenTarget, LuaApi, LuaField, LuaModule, LuaType};

fn class(name: &str) -> LuaType {
    LuaType::Class(name.to_string())
}

fn field(name: &str) -> LuaField {
    writable_field(name.to_string(), LuaType::Integer)
}

#[test]
fn single_branch_union_is_the_branch() {
    for t in [
        LuaType::Integer,
        LuaType::Nil,
        LuaType::Any,
        class("UserDataRef"),
        class("FileRef"),
        LuaType::StringLiteral(vec!["a".to_string()]),
        LuaType::Array(Box::new(LuaType::Nil)),
    ] {
        assert_eq!(make_union(vec![t.clone()]), t);
    }
}

#[test]
fn union_members_are_distinct_and_concrete() {
    assert_eq!(
        make_union(vec![
            LuaType::Integer,
            LuaType::Nil,
            LuaType::String,
            LuaType::Integer,
            LuaType::Any,
        ]),
        LuaType::Optional(Box::new(LuaType::Union(vec![LuaType::Integer, LuaType::String])))
    );
    assert_eq!(
        make_union(vec![LuaType::Any, LuaType::Nil]),
        LuaType::Optional(Box::new(LuaType::Any))
    );
    assert_eq!(make_union(vec![LuaType::Nil, LuaType::Nil]), LuaType::Nil);
    assert_eq!(make_union(vec![]), LuaType::Any);
}

#[test]
fn every_stub_file_is_meta() {
    let mut api = LuaApi::default();
    api.global_fields.push(field("answer"));
    assert!(generate_stubs(&api).starts_with("---@meta\n"));
    assert!(generate_stubs_for(&api, CodegenTarget::EmmyLua).starts_with("---@meta\n"));
    assert_eq!(generate_stubs(&api), generate_stubs_for(&api, CodegenTarget::default()));
}

#[test]
fn union_text_never_left_in_a_class_name() {
    let mut ty = class("integer | (string)");
    normalize_api_lua_type(&mut ty, &[]);
    assert_eq!(ty, LuaType::Union(vec![LuaType::Integer, class("(string)")]));
}

#[test]
fn first_of_each_name_kept_once() {
    let mut fields = vec![field("a"), field("b"), field("a"), field("c"), field("b")];
    dedupe_fields(&mut fields);
    let names: Vec<&str> = fields.iter().map(|f| f.name.as_str()).collect();
    assert_eq!(names, vec!["a", "b", "c"]);
}

#[test]
fn names_in_byte_order() {
    let mut api = LuaApi::default();
    api.global_fields = vec![field("b"), field("B"), field("ab"), field("a"), field(""), field("b")];
    dedupe_api(&mut api);
    let names: Vec<&str> = api.global_fields.iter().map(|f| f.name.as_str()).collect();
    assert_eq!(names, vec!["", "B", "a", "ab", "b"]);
}

#[test]
fn upserted_module_names_stay_unique() {
    let mut api = LuaApi::default();
    for _ in 0..3 {
        upsert_module(
            &mut api,
            LuaModule { name: "x".to_string(), doc: None, functions: vec![], fields: vec![field("f")] },
        );
    }
    assert_eq!(api.modules.len(), 1);
    assert_eq!(api.modules[0].fields.len(), 3);
}

#[test]
fn extracted_flags_are_gone() {
    let mut args: Vec<String> = ["--output=a", "x", "--output=b", "--emmylua"]
        .iter()
        .map(|s| s.to_string())
        .collect();
    assert_eq!(extract_flag(&mut args, "--output="), Some("b".to_string()));
    assert!(args.iter().all(|a| !a.starts_with("--output=")));
    assert!(extract_bool_flag(&mut args, "--emmylua"));
    assert!(!args.contains(&"--emmylua".to_string()));
    let full = make_compiler_args("rustc".to_string(), &args, Some("/s".to_string()));
    assert_eq!(full.iter().filter(|a| a.as_str() == "--sysroot").count(), 1);
}
