use mlua_typegen::assemble::{
    dedupe_api, dedupe_fields, dedupe_functions, dedupe_methods, prune_unexported_registration_modules,
    push_exported_value, readonly_field, upsert_extracted_module, upsert_module, writable_field,
    ExportedValue, ExtractedModule,
};
use mlua_typegen::codegen::generate_stubs;
use mlua_typegen::normalize::{normalize_api_lua_type, normalize_api_types, parse_embedded_lua_type_text};
use mlua_typegen::{
    make_union, LuaApi, LuaClass, LuaEnum, LuaField, LuaFunction, LuaMethod, LuaModule, LuaParam,
    LuaReturn, LuaType, MethodKind,
};

fn class(name: &str) -> LuaType {
    LuaType::Class(name.to_string())
}

fn field(name: &str, ty: LuaType) -> LuaField {
    writable_field(name.to_string(), ty)
}

fn function(name: &str) -> LuaFunction {
    LuaFunction {
        name: name.to_string(),
        is_async: false,
        params: Vec::new(),
        returns: Vec::new(),
        doc: None,
    }
}

fn module(name: &str) -> LuaModule {
    LuaModule {
        name: name.to_string(),
        doc: None,
        functions: Vec::new(),
        fields: Vec::new(),
    }
}

fn names_of_modules(api: &LuaApi) -> Vec<String> {
    api.modules.iter().map(|m| m.name.clone()).collect()
}

#[test]
fn field_constructors() {
    let w = writable_field("x".to_string(), LuaType::Number);
    assert!(w.writable);
    assert_eq!(w.ty, LuaType::Number);
    assert!(w.doc.is_none());
    let r = readonly_field("y".to_string(), LuaType::Integer);
    assert!(!r.writable);
    assert_eq!(r.name, "y");
}

#[test]
fn modules_merged_by_name() {
    let mut api = LuaApi::default();
    let mut first = module("fs");
    first.functions.push(function("read"));
    upsert_module(&mut api, first);
    let mut second = module("fs");
    second.doc = Some("File system.".to_string());
    second.functions.push(function("write"));
    second.fields.push(field("sep", LuaType::String));
    upsert_module(&mut api, second);
    upsert_module(&mut api, module("net"));

    assert_eq!(names_of_modules(&api), vec!["fs", "net"]);
    let fs = &api.modules[0];
    assert_eq!(fs.doc.as_deref(), Some("File system."));
    let fns: Vec<&str> = fs.functions.iter().map(|f| f.name.as_str()).collect();
    assert_eq!(fns, vec!["read", "write"]);
    assert_eq!(fs.fields.len(), 1);
}

#[test]
fn extracted_module_nested_first() {
    let mut api = LuaApi::default();
    let extracted = ExtractedModule {
        module: module("root"),
        nested_modules: vec![module("root__Child"), module("root__Other")],
    };
    let root = upsert_extracted_module(&mut api, extracted);
    assert_eq!(root, "root");
    assert_eq!(names_of_modules(&api), vec!["root__Child", "root__Other", "root"]);
}

#[test]
fn exported_values_recorded() {
    let mut m = module("root");
    let mut nested: Vec<LuaModule> = Vec::new();
    push_exported_value(&mut m, "f".to_string(), ExportedValue::Function(function("f")), None);
    push_exported_value(&mut m, "v".to_string(), ExportedValue::Field(LuaType::Integer), None);
    let child = ExtractedModule {
        module: module("root__Child"),
        nested_modules: vec![module("root__Child__Leaf")],
    };
    push_exported_value(
        &mut m,
        "child".to_string(),
        ExportedValue::NestedModule(child),
        Some(&mut nested),
    );
    assert_eq!(m.functions.len(), 1);
    assert_eq!(m.fields.len(), 2);
    assert_eq!(m.fields[0].name, "v");
    assert_eq!(m.fields[0].ty, LuaType::Integer);
    assert_eq!(m.fields[1].name, "child");
    assert_eq!(m.fields[1].ty, class("root__Child"));
    assert!(m.fields[1].writable);
    let nested_names: Vec<&str> = nested.iter().map(|n| n.name.as_str()).collect();
    assert_eq!(nested_names, vec!["root__Child__Leaf", "root__Child"]);
}

#[test]
fn unexported_modules_pruned() {
    let mut api = LuaApi::default();
    api.modules = vec![module("a"), module("b"), module("c")];
    prune_unexported_registration_modules(
        &mut api,
        &["a".to_string(), "b".to_string()],
        &["b".to_string()],
    );
    assert_eq!(names_of_modules(&api), vec!["b", "c"]);
}

#[test]
fn duplicate_fields_methods_functions_removed() {
    let mut fields = vec![
        field("x", LuaType::Integer),
        field("y", LuaType::String),
        field("x", LuaType::Number),
    ];
    dedupe_fields(&mut fields);
    assert_eq!(fields.len(), 2);
    assert_eq!(fields[0].ty, LuaType::Integer);
    assert_eq!(fields[1].name, "y");

    let method = |name: &str, kind: MethodKind, doc: Option<&str>| LuaMethod {
        name: name.to_string(),
        kind,
        is_async: false,
        params: vec![LuaParam { name: "n".to_string(), ty: LuaType::Integer }],
        returns: vec![LuaReturn { ty: LuaType::String, name: None }],
        doc: doc.map(|d| d.to_string()),
    };
    let mut methods = vec![
        method("get", MethodKind::Method, Some("first")),
        method("get", MethodKind::Function, None),
        method("get", MethodKind::Method, Some("second")),
    ];
    dedupe_methods(&mut methods);
    assert_eq!(methods.len(), 2);
    assert_eq!(methods[0].doc.as_deref(), Some("first"));
    assert_eq!(methods[1].kind, MethodKind::Function);

    let mut async_read = function("read");
    async_read.is_async = true;
    let mut functions = vec![function("read"), async_read, function("read")];
    dedupe_functions(&mut functions);
    assert_eq!(functions.len(), 2);
    assert!(!functions[0].is_async);
    assert!(functions[1].is_async);
}

#[test]
fn api_sorted_and_deduplicated() {
    let mut api = LuaApi::default();
    let class_named = |name: &str, doc: &str| LuaClass {
        name: name.to_string(),
        doc: Some(doc.to_string()),
        fields: vec![field("x", LuaType::Integer), field("x", LuaType::String)],
        methods: Vec::new(),
    };
    api.classes = vec![class_named("b", "first b"), class_named("B", "upper"), class_named("b", "second b")];
    api.enums = vec![
        LuaEnum { name: "Mode".to_string(), doc: None, variants: vec![], pascal_variants: vec![] },
        LuaEnum { name: "Color".to_string(), doc: None, variants: vec![], pascal_variants: vec![] },
    ];
    let mut helper = module("ts");
    helper.fields.push(field("__mod", LuaType::Table));
    api.modules = vec![module("zeta"), helper, module("alpha"), module("zeta")];
    api.global_fields = vec![field("b", LuaType::Integer), field("a", LuaType::String)];
    api.global_functions = vec![function("run"), function("init"), function("run")];

    dedupe_api(&mut api);

    let classes: Vec<(&str, &str)> = api
        .classes
        .iter()
        .map(|c| (c.name.as_str(), c.doc.as_deref().unwrap()))
        .collect();
    assert_eq!(classes, vec![("B", "upper"), ("b", "first b")]);
    assert_eq!(api.classes[0].fields.len(), 1);
    let enums: Vec<&str> = api.enums.iter().map(|e| e.name.as_str()).collect();
    assert_eq!(enums, vec!["Color", "Mode"]);
    assert_eq!(names_of_modules(&api), vec!["alpha", "zeta"]);
    let globals: Vec<&str> = api.global_fields.iter().map(|f| f.name.as_str()).collect();
    assert_eq!(globals, vec!["a", "b"]);
    let funcs: Vec<&str> = api.global_functions.iter().map(|f| f.name.as_str()).collect();
    assert_eq!(funcs, vec!["init", "run"]);
}

#[test]
fn embedded_union_text_read() {
    assert_eq!(
        parse_embedded_lua_type_text("integer | nil"),
        Some(LuaType::Optional(Box::new(LuaType::Integer)))
    );
    assert_eq!(
        parse_embedded_lua_type_text(" string | Foo<A | B> "),
        Some(LuaType::Union(vec![LuaType::String, class("Foo<A | B>")]))
    );
    assert_eq!(parse_embedded_lua_type_text("Foo"), None);
}

#[test]
fn api_type_normalization_of_a_whole_api() {
    let mut api = LuaApi::default();
    api.classes = vec![
        LuaClass {
            name: "File".to_string(),
            doc: None,
            fields: vec![field("parent", class("FileRef"))],
            methods: vec![LuaMethod {
                name: "open".to_string(),
                kind: MethodKind::Function,
                is_async: false,
                params: vec![LuaParam { name: "p".to_string(), ty: class("string | nil") }],
                returns: vec![LuaReturn { ty: class("FileRefMut"), name: None }],
                doc: None,
            }],
        },
        LuaClass { name: "HandleRef".to_string(), doc: None, fields: vec![], methods: vec![] },
    ];
    api.global_fields = vec![field("h", class("HandleRef"))];
    api.global_functions = vec![LuaFunction {
        name: "f".to_string(),
        is_async: false,
        params: vec![],
        returns: vec![LuaReturn {
            ty: LuaType::Union(vec![LuaType::Integer, LuaType::Integer]),
            name: Some("n".to_string()),
        }],
        doc: None,
    }];

    normalize_api_types(&mut api);

    assert_eq!(api.classes[0].fields[0].ty, class("File"));
    assert_eq!(
        api.classes[0].methods[0].params[0].ty,
        LuaType::Optional(Box::new(LuaType::String))
    );
    assert_eq!(api.classes[0].methods[0].returns[0].ty, class("File"));
    assert_eq!(api.global_fields[0].ty, class("HandleRef"));
    assert_eq!(api.global_functions[0].returns[0].ty, LuaType::Integer);
    assert_eq!(api.global_functions[0].returns[0].name.as_deref(), Some("n"));
}

#[test]
fn normalized_types_hold_no_union_text() {
    let mut ty = LuaType::Union(vec![class("integer | string")]);
    normalize_api_lua_type(&mut ty, &[]);
    assert_eq!(ty, LuaType::Union(vec![LuaType::Integer, LuaType::String]));

    let mut nested = LuaType::Array(Box::new(LuaType::Union(vec![
        LuaType::Union(vec![LuaType::Integer, LuaType::Nil]),
        LuaType::Any,
    ])));
    normalize_api_lua_type(&mut nested, &[]);
    assert_eq!(
        nested,
        LuaType::Array(Box::new(make_union(vec![LuaType::Integer, LuaType::Nil])))
    );
}

#[test]
fn empty_api_stub_is_only_meta() {
    assert_eq!(generate_stubs(&LuaApi::default()), "---@meta\n");
}
