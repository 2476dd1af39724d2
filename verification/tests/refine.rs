use mlua_typegen::heck_case::{nested_module_name, variant_to_lua_string};
use mlua_typegen::make_union;
use mlua_typegen::refine::{
    contains_self_return_sentinel, explicit_param_types_from_closure_snippet,
    explicit_param_types_from_type_snippet, infer_pairs_forward_returns, infer_pairs_value_type,
    infer_value_converter_types_from_snippet, is_better_inferred_type, is_error_class,
    is_erased_body_type, is_informative, is_self_return_sentinel, json_like_lua_type,
    lua_runtime_type, lua_type_from_extracted_name, lua_value_variant_to_type,
    merge_body_inference, merge_inferred_returns, merge_return_branches, meta_method_lua_name,
    normalize_explicit_param_type, normalize_inferred_lua_type, normalize_param_lua_type,
    normalize_table_value_types, normalize_userdata_ref_alias_type, parse_embedded_class_args,
    replace_self_class_alias, replace_self_return_sentinel, rewrap_erased_body_inference,
    self_return_sentinel, should_prefer_body_inference, should_prefer_explicit_param_type,
    should_replace_returns,
};
use mlua_typegen::{LuaReturn, LuaType};

fn class(name: &str) -> LuaType {
    LuaType::Class(name.to_string())
}

fn ret(ty: LuaType) -> LuaReturn {
    LuaReturn { ty, name: None }
}

fn named(ty: LuaType, name: &str) -> LuaReturn {
    LuaReturn { ty, name: Some(name.to_string()) }
}

#[test]
fn informative_types() {
    assert!(!is_informative(&LuaType::Any));
    assert!(!is_informative(&LuaType::Nil));
    assert!(!is_informative(&LuaType::Function));
    assert!(!is_informative(&LuaType::Optional(Box::new(LuaType::Any))));
    assert!(!is_informative(&LuaType::Variadic(Box::new(LuaType::Nil))));
    assert!(!is_informative(&class("{opaque#3}")));
    assert!(!is_informative(&class("{closure}")));
    assert!(is_informative(&class("File")));
    assert!(is_informative(&LuaType::Optional(Box::new(LuaType::Integer))));
    assert!(is_informative(&LuaType::Table));
}

#[test]
fn error_classes() {
    assert!(is_error_class(&class("Error")));
    assert!(is_error_class(&class("mlua::LuaError")));
    assert!(!is_error_class(&class("ErrorKind")));
    assert!(!is_error_class(&LuaType::String));
}

#[test]
fn erased_body_types() {
    assert!(is_erased_body_type(&LuaType::String));
    assert!(is_erased_body_type(&LuaType::Optional(Box::new(LuaType::Any))));
    assert!(!is_erased_body_type(&LuaType::Integer));
}

#[test]
fn better_inferred_types() {
    assert!(is_better_inferred_type(
        &LuaType::String,
        &LuaType::StringLiteral(vec!["a".to_string()])
    ));
    assert!(is_better_inferred_type(
        &LuaType::Table,
        &LuaType::Array(Box::new(LuaType::Integer))
    ));
    assert!(is_better_inferred_type(
        &LuaType::Function,
        &LuaType::FunctionSig { params: vec![], returns: vec![] }
    ));
    assert!(!is_better_inferred_type(&LuaType::Integer, &LuaType::String));
    assert!(is_better_inferred_type(
        &LuaType::Optional(Box::new(LuaType::Any)),
        &LuaType::Integer
    ));
    assert!(is_better_inferred_type(
        &LuaType::Any,
        &LuaType::Union(vec![LuaType::Nil, LuaType::Integer])
    ));
    assert!(!is_better_inferred_type(
        &LuaType::Any,
        &LuaType::Union(vec![LuaType::Nil, LuaType::Any])
    ));
    assert!(is_better_inferred_type(
        &LuaType::Variadic(Box::new(LuaType::Any)),
        &LuaType::Variadic(Box::new(LuaType::String))
    ));
}

#[test]
fn body_inference_preference() {
    assert!(should_prefer_body_inference(&LuaType::Any, &LuaType::Integer));
    assert!(should_prefer_body_inference(&LuaType::String, &class("Url")));
    assert!(!should_prefer_body_inference(&LuaType::Integer, &LuaType::Any));
    assert!(!should_prefer_body_inference(&LuaType::Integer, &LuaType::Boolean));
}

#[test]
fn rewrapping_erased_optionals() {
    let opt_string = LuaType::Optional(Box::new(LuaType::String));
    assert_eq!(
        rewrap_erased_body_inference(&opt_string, &LuaType::Integer),
        LuaType::Optional(Box::new(LuaType::Integer))
    );
    assert_eq!(
        rewrap_erased_body_inference(&opt_string, &LuaType::Optional(Box::new(LuaType::Integer))),
        LuaType::Optional(Box::new(LuaType::Integer))
    );
    assert_eq!(
        rewrap_erased_body_inference(&LuaType::Integer, &LuaType::Boolean),
        LuaType::Boolean
    );
}

#[test]
fn merging_body_inferences() {
    assert_eq!(merge_body_inference(None, LuaType::Integer), Some(LuaType::Integer));
    assert_eq!(merge_body_inference(None, LuaType::Any), None);
    assert_eq!(
        merge_body_inference(Some(LuaType::String), LuaType::Integer),
        Some(LuaType::Integer)
    );
    assert_eq!(
        merge_body_inference(Some(LuaType::Integer), LuaType::Any),
        Some(LuaType::Integer)
    );
    assert_eq!(
        merge_body_inference(Some(LuaType::Integer), LuaType::Boolean),
        Some(LuaType::Integer)
    );
}

#[test]
fn replacing_declared_returns() {
    assert!(should_replace_returns(&[ret(LuaType::Any)], &[ret(LuaType::Integer)]));
    assert!(!should_replace_returns(&[ret(LuaType::Integer)], &[ret(LuaType::Any)]));
    assert!(!should_replace_returns(&[], &[]));
    assert!(should_replace_returns(&[ret(LuaType::Integer)], &[]));
    assert!(should_replace_returns(&[], &[ret(LuaType::String)]));
    assert!(!should_replace_returns(
        &[ret(LuaType::Integer)],
        &[ret(LuaType::String), ret(LuaType::Boolean)]
    ));
    assert!(should_replace_returns(
        &[ret(LuaType::Any)],
        &[ret(LuaType::String), ret(LuaType::Boolean)]
    ));

    let mut rets = vec![ret(LuaType::Any)];
    merge_inferred_returns(&mut rets, Some(vec![ret(LuaType::Integer)]));
    assert_eq!(rets, vec![ret(LuaType::Integer)]);
    merge_inferred_returns(&mut rets, Some(vec![ret(LuaType::Nil)]));
    assert_eq!(rets, vec![ret(LuaType::Integer)]);
    merge_inferred_returns(&mut rets, None);
    assert_eq!(rets, vec![ret(LuaType::Integer)]);
}

#[test]
fn explicit_parameter_preference() {
    assert!(should_prefer_explicit_param_type(&LuaType::Any, &LuaType::Integer));
    assert!(!should_prefer_explicit_param_type(&LuaType::Integer, &LuaType::Integer));
    assert!(should_prefer_explicit_param_type(&LuaType::String, &class("Foo")));
    assert!(!should_prefer_explicit_param_type(&LuaType::String, &LuaType::Integer));
    assert!(should_prefer_explicit_param_type(&class("UserDataRef"), &class("File")));
    assert!(!should_prefer_explicit_param_type(
        &class("UserDataRef"),
        &class("UserDataRefMut")
    ));
}

#[test]
fn value_variants() {
    assert_eq!(lua_value_variant_to_type("Integer"), Some(LuaType::Integer));
    assert_eq!(lua_value_variant_to_type("LightUserData"), Some(LuaType::Any));
    assert_eq!(lua_value_variant_to_type("UserData"), None);
}

#[test]
fn reference_aliases_renamed_deeply() {
    let mut ty = LuaType::TypedTable(
        Box::new(LuaType::String),
        Box::new(LuaType::Union(vec![class("FileRefMut"), class("UserDataRef"), class("Ref")])),
    );
    normalize_userdata_ref_alias_type(&mut ty);
    assert_eq!(
        ty,
        LuaType::TypedTable(
            Box::new(LuaType::String),
            Box::new(LuaType::Union(vec![class("File"), class("UserDataRef"), class("Ref")])),
        )
    );
    assert_eq!(normalize_explicit_param_type(class("UrlRef")), class("Url"));
}

#[test]
fn self_sentinel_handling() {
    let sentinel = self_return_sentinel();
    assert!(is_self_return_sentinel(&sentinel));
    assert!(!is_self_return_sentinel(&class("Foo")));
    let mut ty = LuaType::Optional(Box::new(sentinel));
    assert!(contains_self_return_sentinel(&ty));
    replace_self_return_sentinel(&mut ty, "Foo");
    assert_eq!(ty, LuaType::Optional(Box::new(class("Foo"))));
    assert!(!contains_self_return_sentinel(&ty));

    let mut alias = LuaType::Union(vec![class("Self"), LuaType::Nil]);
    replace_self_class_alias(&mut alias, "Bar");
    assert_eq!(alias, LuaType::Union(vec![class("Bar"), LuaType::Nil]));
    assert_eq!(lua_runtime_type(), class("Lua"));
}

#[test]
fn extracted_names() {
    assert_eq!(
        lua_type_from_extracted_name("Vec<u32>"),
        LuaType::Array(Box::new(LuaType::Integer))
    );
    assert_eq!(lua_type_from_extracted_name(" std::string::String "), LuaType::String);
    assert_eq!(
        lua_type_from_extracted_name("Variadic<String>"),
        LuaType::Variadic(Box::new(LuaType::String))
    );
    assert_eq!(
        lua_type_from_extracted_name("MultiValue"),
        LuaType::Variadic(Box::new(LuaType::Any))
    );
    assert_eq!(lua_type_from_extracted_name("MutexGuard<Config>"), class("Config"));
    assert_eq!(lua_type_from_extracted_name("()"), LuaType::Nil);
    assert_eq!(lua_type_from_extracted_name("mlua::Table"), LuaType::Table);
    assert_eq!(lua_type_from_extracted_name("Url"), class("Url"));
}

#[test]
fn table_values_without_plain_tables() {
    assert_eq!(
        normalize_table_value_types(vec![LuaType::Table, LuaType::Integer]),
        vec![LuaType::Integer]
    );
    assert_eq!(normalize_table_value_types(vec![LuaType::Table]), vec![LuaType::Table]);
}

#[test]
fn inferred_optional_userdata_refs() {
    assert_eq!(
        normalize_inferred_lua_type(LuaType::Optional(Box::new(LuaType::Union(vec![
            class("UserDataRefMut"),
            class("UrlRefMut"),
        ])))),
        LuaType::Optional(Box::new(class("Url")))
    );
}

#[test]
fn parameter_unions_rebuilt() {
    assert_eq!(
        normalize_param_lua_type(LuaType::Array(Box::new(LuaType::Union(vec![
            LuaType::Integer,
            LuaType::Integer,
        ])))),
        LuaType::Array(Box::new(LuaType::Integer))
    );
}

#[test]
fn json_like_values() {
    let json = LuaType::Optional(Box::new(LuaType::Union(vec![
        LuaType::Boolean,
        LuaType::Number,
        LuaType::String,
        LuaType::Table,
    ])));
    assert_eq!(json_like_lua_type(), json.clone());
    assert_eq!(infer_value_converter_types_from_snippet("lua.from_value(v)"), vec![json]);
    assert_eq!(
        infer_value_converter_types_from_snippet("match v { Value::Nil => 0, Value::Integer(i) => i }"),
        vec![LuaType::Nil, LuaType::Integer]
    );
    assert_eq!(
        infer_value_converter_types_from_snippet("ud.borrow::<Foo>()"),
        vec![class("Foo")]
    );
    assert_eq!(infer_value_converter_types_from_snippet("nothing here"), Vec::<LuaType>::new());
}

#[test]
fn explicit_parameter_annotations() {
    assert_eq!(
        explicit_param_types_from_type_snippet("(String, i32)", 2),
        Some(vec![LuaType::String, LuaType::Integer])
    );
    assert_eq!(explicit_param_types_from_type_snippet("(String, i32)", 3), None);
    assert_eq!(explicit_param_types_from_type_snippet("()", 1), None);
    assert_eq!(explicit_param_types_from_type_snippet("mlua::AnyUserData", 1), None);
    assert_eq!(
        explicit_param_types_from_type_snippet("FileRef", 1),
        Some(vec![class("File")])
    );
    assert_eq!(
        explicit_param_types_from_closure_snippet("|lua, (a, b): (String, u8)| {}", 1, 2),
        Some(vec![LuaType::String, LuaType::Integer])
    );
    assert_eq!(explicit_param_types_from_closure_snippet("|lua, x| {}", 1, 1), None);
    assert_eq!(explicit_param_types_from_closure_snippet("|lua| {}", 3, 1), None);
}

#[test]
fn metamethod_names() {
    assert_eq!(meta_method_lua_name("ToString"), "__tostring");
    assert_eq!(meta_method_lua_name("NewIndex"), "__newindex");
    assert_eq!(meta_method_lua_name("Foo"), "__foo");
    assert_eq!(meta_method_lua_name("DoThing"), "__do_thing");
}

#[test]
fn case_conversion_through_heck() {
    assert_eq!(variant_to_lua_string("HTTPResponse"), "http_response");
    assert_eq!(variant_to_lua_string("ReadOnly"), "read_only");
    assert_eq!(nested_module_name("fs", "read_dir"), "fs__ReadDir");
}

#[test]
fn iterator_classes() {
    let (base, args) = parse_embedded_class_args("Iter<Foo, Bar>").unwrap();
    assert_eq!(base, "Iter");
    assert_eq!(args, vec![class("Foo"), class("Bar")]);
    assert!(parse_embedded_class_args("Iter").is_none());
    assert!(parse_embedded_class_args("Iter<Foo").is_none());

    assert_eq!(infer_pairs_value_type(&class("Iter")), Some(LuaType::Any));
    assert_eq!(infer_pairs_value_type(&class("Iter<any, Url>")), Some(class("Url")));
    assert_eq!(infer_pairs_value_type(&class("Iter<Url>")), None);
    assert_eq!(infer_pairs_value_type(&class("Foo")), None);
    assert_eq!(infer_pairs_value_type(&LuaType::Table), None);

    let iter = class("Iter");
    assert_eq!(
        infer_pairs_forward_returns(&iter),
        vec![
            ret(LuaType::FunctionSig {
                params: vec![iter.clone()],
                returns: vec![
                    LuaType::Optional(Box::new(LuaType::Integer)),
                    LuaType::Optional(Box::new(LuaType::Any)),
                ],
            }),
            ret(iter.clone()),
            ret(LuaType::Nil),
        ]
    );
}

#[test]
fn branch_returns_merged() {
    assert_eq!(merge_return_branches(vec![]), None);
    let merged = merge_return_branches(vec![
        vec![named(LuaType::Integer, "a")],
        vec![named(LuaType::String, "a"), ret(LuaType::Boolean)],
    ])
    .unwrap();
    assert_eq!(
        merged,
        vec![
            named(make_union(vec![LuaType::Integer, LuaType::String]), "a"),
            ret(LuaType::Optional(Box::new(LuaType::Boolean))),
        ]
    );
    let disagree = merge_return_branches(vec![
        vec![named(LuaType::Integer, "a")],
        vec![named(LuaType::Integer, "b")],
    ])
    .unwrap();
    assert_eq!(disagree, vec![ret(LuaType::Integer)]);
    let later_name = merge_return_branches(vec![
        vec![ret(LuaType::Integer)],
        vec![named(LuaType::Integer, "n")],
    ])
    .unwrap();
    assert_eq!(later_name, vec![named(LuaType::Integer, "n")]);
}
