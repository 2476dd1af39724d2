use mlua_typegen::assemble::writable_field;
use mlua_typegen::codegen::{generate_stubs_for, write_field, write_module, write_namespaced_function};
use mlua_typegen::driver::codegen_target;
use mlua_typegen::files::{crate_file_content, module_file_content};
use mlua_typegen::launcher::{parse_launcher_args, LauncherError};
use mlua_typegen::{CodegenTarget, LuaApi, LuaFunction, LuaModule, LuaType};

fn function(name: &str) -> LuaFunction {
    LuaFunction {
        name: name.to_string(),
        is_async: false,
        params: Vec::new(),
        returns: Vec::new(),
        doc: None,
    }
}

fn strings(items: &[&str]) -> Vec<String> {
    items.iter().map(|s| s.to_string()).collect()
}

#[test]
fn fresh_module_file() {
    let module = LuaModule {
        name: "fs".to_string(),
        doc: Some("Files.".to_string()),
        functions: vec![function("read")],
        fields: vec![],
    };
    let content = module_file_content(None, &module, CodegenTarget::LuaLS);
    let mut expected = String::from("---@meta\n\n");
    write_module(&mut expected, &module, CodegenTarget::LuaLS);
    assert_eq!(content, expected);
    assert!(content.contains("function fs.read() end"));
}

#[test]
fn existing_module_file_gains_only_new_items() {
    let existing = "---@meta\n\n---@class fs\n---@field sep string\nfs = {}\n\nfunction fs.read() end\n\n\n";
    let sep = writable_field("sep".to_string(), LuaType::String);
    let root = writable_field("root".to_string(), LuaType::String);
    let module = LuaModule {
        name: "fs".to_string(),
        doc: None,
        functions: vec![function("read"), function("write")],
        fields: vec![sep, root.clone()],
    };
    let content = module_file_content(Some(existing), &module, CodegenTarget::LuaLS);
    let mut expected = String::from(existing.trim_end());
    expected.push_str("\n\n");
    write_field(&mut expected, &root);
    write_namespaced_function(&mut expected, "fs", &function("write"), CodegenTarget::LuaLS);
    assert_eq!(content, expected);
    assert_eq!(content.matches("function fs.read(").count(), 1);
}

#[test]
fn crate_file_only_with_content() {
    assert_eq!(crate_file_content(LuaApi::default(), CodegenTarget::LuaLS), None);

    let mut api = LuaApi::default();
    api.modules.push(LuaModule {
        name: "m".to_string(),
        doc: None,
        functions: vec![function("f")],
        fields: vec![],
    });
    assert_eq!(crate_file_content(api.clone(), CodegenTarget::LuaLS), None);

    api.global_fields.push(writable_field("answer".to_string(), LuaType::Integer));
    let mut without_modules = api.clone();
    without_modules.modules.clear();
    assert_eq!(
        crate_file_content(api, CodegenTarget::EmmyLua),
        Some(generate_stubs_for(&without_modules, CodegenTarget::EmmyLua))
    );
}

#[test]
fn launcher_arguments() {
    let parsed = parse_launcher_args(&strings(&["-o", "out", "--emmylua", "-p", "crate"])).unwrap();
    assert_eq!(parsed.output_dir, "out");
    assert!(parsed.emit_emmylua);
    assert_eq!(parsed.cargo_args, strings(&["-p", "crate"]));

    let defaults = parse_launcher_args(&[]).unwrap();
    assert_eq!(defaults.output_dir, "lua-types");
    assert!(!defaults.emit_emmylua);
    assert!(defaults.cargo_args.is_empty());

    let last = parse_launcher_args(&strings(&["--output", "a", "--output", "b"])).unwrap();
    assert_eq!(last.output_dir, "b");

    assert!(matches!(
        parse_launcher_args(&strings(&["--release", "--output"])),
        Err(LauncherError::MissingOutputDir)
    ));
}

#[test]
fn annotation_flavour() {
    assert_eq!(codegen_target(false, false), CodegenTarget::LuaLS);
    assert_eq!(codegen_target(true, false), CodegenTarget::EmmyLua);
    assert_eq!(codegen_target(false, true), CodegenTarget::EmmyLua);
}

#[test]
fn rewriting_a_module_file_only_trims_its_end() {
    let mut m = LuaModule {
        name: "util".to_string(),
        doc: Some("Helpers.".to_string()),
        functions: vec![function("join"), function("split"), function("join")],
        fields: vec![writable_field("version".to_string(), LuaType::String)],
    };
    m.functions[2].params.push(mlua_typegen::LuaParam { name: "sep".to_string(), ty: LuaType::String });
    for target in [CodegenTarget::LuaLS, CodegenTarget::EmmyLua] {
        let first = module_file_content(None, &m, target);
        let second = module_file_content(Some(&first), &m, target);
        assert_eq!(second, format!("{}\n\n", first.trim_end()));
        let third = module_file_content(Some(&second), &m, target);
        assert_eq!(third, format!("{}\n\n", second.trim_end()));
    }
}
