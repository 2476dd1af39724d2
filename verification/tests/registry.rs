use mlua_typegen::assemble::{prune_unexported_registration_modules, writable_field, ExtractedModule};
use mlua_typegen::registry::Registrations;
use mlua_typegen::{LuaApi, LuaModule, LuaType};

fn module(name: &str) -> LuaModule {
    LuaModule {
        name: name.to_string(),
        doc: None,
        functions: Vec::new(),
        fields: Vec::new(),
    }
}

fn empty() -> Registrations {
    Registrations {
        table_bindings: Vec::new(),
        local_module_names: Vec::new(),
        exported_module_names: Vec::new(),
        module_children: Vec::new(),
    }
}

fn has(names: &[String], n: &str) -> bool {
    names.iter().any(|x| x == n)
}

#[test]
fn marking_exports_nested_modules_transitively() {
    let mut r = empty();
    r.module_children.push(("a".to_string(), vec!["a.b".to_string()]));
    r.module_children.push(("a.b".to_string(), vec!["a.b.c".to_string()]));
    r.module_children.push(("x".to_string(), vec!["x.y".to_string()]));
    r.mark_module_exported("a");
    assert!(has(&r.exported_module_names, "a"));
    assert!(has(&r.exported_module_names, "a.b"));
    assert!(has(&r.exported_module_names, "a.b.c"));
    assert!(!has(&r.exported_module_names, "x"));
    assert!(!has(&r.exported_module_names, "x.y"));
    assert_eq!(r.exported_module_names.len(), 3);
}

#[test]
fn marking_an_exported_module_again_changes_nothing() {
    let mut r = empty();
    r.exported_module_names.push("a".to_string());
    r.module_children.push(("a".to_string(), vec!["a.b".to_string()]));
    r.mark_module_exported("a");
    assert_eq!(r.exported_module_names, vec!["a".to_string()]);
}

#[test]
fn marking_survives_cycles() {
    let mut r = empty();
    r.module_children.push(("a".to_string(), vec!["b".to_string()]));
    r.module_children.push(("b".to_string(), vec!["a".to_string()]));
    r.mark_module_exported("a");
    assert!(has(&r.exported_module_names, "a"));
    assert!(has(&r.exported_module_names, "b"));
    assert_eq!(r.exported_module_names.len(), 2);
}

#[test]
fn renaming_a_bound_table_renames_its_module() {
    let mut api = LuaApi::default();
    api.modules.push(module("other"));
    api.modules.push(module("tmp"));
    let mut r = empty();
    r.table_bindings.push(("t".to_string(), 1));
    assert!(r.rename_registered_module_binding(&mut api, "t", "mymod"));
    assert_eq!(api.modules[1].name, "mymod");
    assert_eq!(api.modules[0].name, "other");
    assert!(has(&r.local_module_names, "mymod"));
    assert!(has(&r.exported_module_names, "mymod"));
    assert_eq!(r.resolve_module_index(&api, "mymod"), Some(1));
    assert_eq!(r.resolve_module_index(&api, "t"), Some(1));
}

#[test]
fn renaming_an_unbound_table_does_nothing() {
    let mut api = LuaApi::default();
    api.modules.push(module("tmp"));
    let mut r = empty();
    assert!(!r.rename_registered_module_binding(&mut api, "t", "mymod"));
    assert_eq!(api.modules[0].name, "tmp");
    assert!(r.local_module_names.is_empty());
    assert!(r.exported_module_names.is_empty());
    assert!(r.table_bindings.is_empty());
}

#[test]
fn resolving_prefers_the_latest_binding_then_the_module_name() {
    let mut api = LuaApi::default();
    api.modules.push(module("a"));
    api.modules.push(module("b"));
    api.modules.push(module("c"));
    let mut r = empty();
    r.table_bindings.push(("t".to_string(), 0));
    r.table_bindings.push(("t".to_string(), 2));
    assert_eq!(r.resolve_module_index(&api, "t"), Some(2));
    assert_eq!(r.resolve_module_index(&api, "b"), Some(1));
    assert_eq!(r.resolve_module_index(&api, "zzz"), None);
}

#[test]
fn recording_an_extracted_module_adds_and_exports_it() {
    let mut api = LuaApi::default();
    api.modules.push(module("kept"));
    let mut r = empty();
    let extracted = ExtractedModule {
        module: module("m"),
        nested_modules: vec![module("m.sub")],
    };
    r.record_exported_registration_module(&mut api, extracted);
    let names: Vec<String> = api.modules.iter().map(|m| m.name.clone()).collect();
    assert_eq!(names, vec!["kept".to_string(), "m.sub".to_string(), "m".to_string()]);
    assert!(has(&r.local_module_names, "m"));
    assert!(has(&r.exported_module_names, "m"));
    assert!(!has(&r.exported_module_names, "m.sub"));
}

#[test]
fn a_child_of_an_exported_module_is_exported() {
    let mut r = empty();
    r.exported_module_names.push("p".to_string());
    r.record_child_module("p", "p.c");
    assert!(has(&r.exported_module_names, "p.c"));
    assert_eq!(r.module_children.len(), 1);
    assert_eq!(r.module_children[0].1, vec!["p.c".to_string()]);
    r.record_child_module("p", "p.d");
    assert_eq!(r.module_children.len(), 1);
    assert_eq!(
        r.module_children[0].1,
        vec!["p.c".to_string(), "p.d".to_string()]
    );
}

#[test]
fn a_child_of_an_unexported_module_waits_for_its_parent() {
    let mut r = empty();
    r.record_child_module("p", "p.c");
    assert!(r.exported_module_names.is_empty());
    r.mark_module_exported("p");
    assert!(has(&r.exported_module_names, "p"));
    assert!(has(&r.exported_module_names, "p.c"));
}

#[test]
fn binding_a_local_table_makes_a_local_module() {
    let mut api = LuaApi::default();
    api.modules.push(module("first"));
    let mut r = Registrations::new();
    let extracted = ExtractedModule {
        module: module("t"),
        nested_modules: Vec::new(),
    };
    r.bind_table_module(&mut api, "t", extracted);
    assert_eq!(api.modules.len(), 2);
    assert_eq!(api.modules[1].name, "t");
    assert_eq!(r.table_bindings, vec![("t".to_string(), 1)]);
    assert!(has(&r.local_module_names, "t"));
    assert!(r.exported_module_names.is_empty());
    assert_eq!(r.resolve_module_index(&api, "t"), Some(1));
}

#[test]
fn binding_a_required_module_exports_it() {
    let mut api = LuaApi::default();
    api.modules.push(module("a"));
    api.modules.push(module("json"));
    let mut r = Registrations::new();
    r.bind_required_module(&mut api, "j", "json");
    assert_eq!(api.modules.len(), 2);
    assert_eq!(r.table_bindings, vec![("j".to_string(), 1)]);
    assert!(has(&r.local_module_names, "json"));
    assert!(has(&r.exported_module_names, "json"));
    r.bind_required_module(&mut api, "k", "yaml");
    assert_eq!(api.modules.len(), 3);
    assert_eq!(api.modules[2].name, "yaml");
    assert_eq!(r.resolve_module_index(&api, "k"), Some(2));
}

#[test]
fn pruning_after_registration_keeps_exported_modules() {
    let mut api = LuaApi::default();
    let mut r = Registrations::new();
    r.bind_table_module(
        &mut api,
        "hidden",
        ExtractedModule { module: module("hidden"), nested_modules: Vec::new() },
    );
    r.bind_table_module(
        &mut api,
        "shown",
        ExtractedModule { module: module("shown"), nested_modules: Vec::new() },
    );
    assert!(r.rename_registered_module_binding(&mut api, "shown", "app"));
    prune_unexported_registration_modules(&mut api, &r.local_module_names, &r.exported_module_names);
    let names: Vec<String> = api.modules.iter().map(|m| m.name.clone()).collect();
    assert_eq!(names, vec!["app".to_string()]);
}

#[test]
fn a_module_field_is_added_to_its_module() {
    let mut api = LuaApi::default();
    api.modules.push(module("m"));
    let mut r = Registrations::new();
    r.register_module_field(&mut api, 0, writable_field("count".to_string(), LuaType::Integer), None);
    assert_eq!(api.modules[0].fields.len(), 1);
    assert_eq!(api.modules[0].fields[0].name, "count");
    assert_eq!(api.modules[0].fields[0].ty, LuaType::Integer);
    assert!(api.modules[0].fields[0].writable);
    assert!(r.local_module_names.is_empty());
    assert!(r.module_children.is_empty());
}

#[test]
fn a_module_field_holding_a_table_makes_a_nested_module() {
    let mut api = LuaApi::default();
    api.modules.push(module("m"));
    let mut r = Registrations::new();
    r.exported_module_names.push("m".to_string());
    let child = ExtractedModule {
        module: module("m__Util"),
        nested_modules: Vec::new(),
    };
    r.register_module_field(&mut api, 0, writable_field("util".to_string(), LuaType::Table), Some(child));
    assert_eq!(api.modules.len(), 2);
    assert_eq!(api.modules[1].name, "m__Util");
    assert_eq!(api.modules[0].fields[0].name, "util");
    assert_eq!(api.modules[0].fields[0].ty, LuaType::Class("m__Util".to_string()));
    assert!(has(&r.local_module_names, "m__Util"));
    assert!(has(&r.exported_module_names, "m__Util"));
    assert_eq!(r.module_children, vec![("m".to_string(), vec!["m__Util".to_string()])]);
}

#[test]
fn a_global_naming_a_bound_table_exports_it() {
    let mut api = LuaApi::default();
    let mut r = Registrations::new();
    r.bind_table_module(&mut api, "t", ExtractedModule { module: module("t"), nested_modules: Vec::new() });
    r.register_global(&mut api, "mylib", Some("t"), None, writable_field("mylib".to_string(), LuaType::Table));
    assert_eq!(api.modules[0].name, "mylib");
    assert!(api.global_fields.is_empty());
    assert!(has(&r.exported_module_names, "mylib"));
}

#[test]
fn a_global_making_a_module_records_it() {
    let mut api = LuaApi::default();
    let mut r = Registrations::new();
    let made = ExtractedModule { module: module("tools"), nested_modules: Vec::new() };
    r.register_global(&mut api, "tools", Some("unbound"), Some(made), writable_field("tools".to_string(), LuaType::Table));
    assert_eq!(api.modules.len(), 1);
    assert_eq!(api.modules[0].name, "tools");
    assert!(api.global_fields.is_empty());
    assert!(has(&r.exported_module_names, "tools"));
    assert!(has(&r.local_module_names, "tools"));
}

#[test]
fn any_other_global_is_a_field() {
    let mut api = LuaApi::default();
    let mut r = Registrations::new();
    r.register_global(&mut api, "VERSION", None, None, writable_field("VERSION".to_string(), LuaType::String));
    assert!(api.modules.is_empty());
    assert_eq!(api.global_fields.len(), 1);
    assert_eq!(api.global_fields[0].name, "VERSION");
    assert_eq!(api.global_fields[0].ty, LuaType::String);
    assert!(r.exported_module_names.is_empty());
}
