use mlua_typegen::assemble::is_synthetic_helper_module;
use mlua_typegen::make_union;
use mlua_typegen::normalize::normalize_api_lua_type;
use mlua_typegen::refine::{
    lua_type_from_extracted_name, normalize_inferred_lua_type, normalize_table_value_types,
};
use mlua_typegen::{LuaField, LuaFunction, LuaModule, LuaType};

#[test]
fn synthetic_helper_module_detection_handles_internal_wrapper_tables() {
    let internal = LuaModule {
        name: "ts".to_string(),
        doc: None,
        functions: Vec::new(),
        fields: vec![LuaField {
            name: "__mod".to_string(),
            ty: LuaType::Table,
            writable: true,
            doc: None,
        }],
    };

    let exported = LuaModule {
        name: "fs".to_string(),
        doc: None,
        functions: vec![LuaFunction {
            name: "cwd".to_string(),
            is_async: false,
            params: Vec::new(),
            returns: Vec::new(),
            doc: None,
        }],
        fields: Vec::new(),
    };

    assert!(is_synthetic_helper_module(&internal));
    assert!(!is_synthetic_helper_module(&exported));
}

#[test]
fn extracted_name_unwraps_userdata_refs() {
    assert_eq!(
        lua_type_from_extracted_name("UserDataRef<File>"),
        LuaType::Class("File".to_string())
    );
    assert_eq!(
        lua_type_from_extracted_name("UserDataRefMut<Url>"),
        LuaType::Class("Url".to_string())
    );
}

#[test]
fn extracted_name_handles_qualified_option_userdata_ref() {
    assert_eq!(
        lua_type_from_extracted_name("Option<mlua::UserDataRef<File>>"),
        LuaType::Optional(Box::new(LuaType::Class("File".to_string())))
    );
}

#[test]
fn table_value_normalization_prefers_specific_userdata_class() {
    let normalized = normalize_table_value_types(vec![
        LuaType::Class("UserDataRef".to_string()),
        LuaType::Class("FileRef".to_string()),
        LuaType::Integer,
    ]);

    assert_eq!(
        normalized,
        vec![LuaType::Class("File".to_string()), LuaType::Integer]
    );
}

#[test]
fn inferred_union_normalization_prefers_specific_userdata_class() {
    let normalized = normalize_inferred_lua_type(LuaType::Union(vec![
        LuaType::Class("UserDataRef".to_string()),
        LuaType::Class("FileRef".to_string()),
        LuaType::Integer,
    ]));

    assert_eq!(
        normalized,
        make_union(vec![LuaType::Class("File".to_string()), LuaType::Integer])
    );
}

#[test]
fn api_type_normalization_rewrites_known_ref_aliases() {
    let mut ty = LuaType::Union(vec![
        LuaType::Class("UserDataRef".to_string()),
        LuaType::Class("FileRef".to_string()),
        LuaType::Integer,
    ]);
    let known = vec!["File".to_string()];

    normalize_api_lua_type(&mut ty, &known);

    assert_eq!(
        ty,
        make_union(vec![LuaType::Class("File".to_string()), LuaType::Integer])
    );
}

#[test]
fn api_type_normalization_parses_embedded_union_text() {
    let mut ty = LuaType::Class("UserDataRef | FileRef | integer".to_string());
    let known: Vec<String> = Vec::new();

    normalize_api_lua_type(&mut ty, &known);

    assert_eq!(
        ty,
        make_union(vec![LuaType::Class("File".to_string()), LuaType::Integer])
    );
}
