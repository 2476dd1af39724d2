use mlua_typegen::driver::{
    extract_bool_flag, extract_flag, has_sysroot_arg, make_compiler_args, sysroot_from_print_output,
    sysroot_from_path_parts, sysroot_from_rustc_path,
};
use mlua_typegen::snippets::{
    closure_params_snippet, extract_balanced_generic_arg, extract_cross_module_call_from_snippet,
    extract_iter_value_arg_from_class_name, is_passthrough_method, is_userdata_trait,
    last_path_segment, parse_name_attr, snippet_generic_type_name, snippet_type_before_method,
    top_level_param_type_annotation,
};

fn strings(items: &[&str]) -> Vec<String> {
    items.iter().map(|s| s.to_string()).collect()
}

#[test]
fn compiler_args_get_a_sysroot_once() {
    let args = strings(&["--edition=2021"]);
    assert!(!has_sysroot_arg(&args));
    assert_eq!(
        make_compiler_args("rustc".to_string(), &args, Some("/sys".to_string())),
        strings(&["rustc", "--edition=2021", "--sysroot", "/sys"])
    );
    let given = strings(&["--sysroot=/mine", "lib.rs"]);
    assert!(has_sysroot_arg(&given));
    assert_eq!(
        make_compiler_args("rustc".to_string(), &given, Some("/sys".to_string())),
        strings(&["rustc", "--sysroot=/mine", "lib.rs"])
    );
    assert_eq!(
        make_compiler_args("rustc".to_string(), &args, None),
        strings(&["rustc", "--edition=2021"])
    );
}

#[test]
fn flags_extracted_and_removed() {
    let mut args = strings(&["a", "--out=x", "b", "--out=y"]);
    assert_eq!(extract_flag(&mut args, "--out="), Some("y".to_string()));
    assert_eq!(args, strings(&["a", "b"]));
    assert_eq!(extract_flag(&mut args, "--out="), None);
    assert_eq!(args, strings(&["a", "b"]));

    let mut args = strings(&["--emmylua", "a", "--emmylua"]);
    assert!(extract_bool_flag(&mut args, "--emmylua"));
    assert_eq!(args, strings(&["a"]));
    assert!(!extract_bool_flag(&mut args, "--emmylua"));
}

#[test]
fn snippet_helpers() {
    assert!(is_passthrough_method("map_err"));
    assert!(!is_passthrough_method("frobnicate"));
    assert!(is_userdata_trait("mlua::UserData"));
    assert!(is_userdata_trait("my_crate::UserData"));
    assert!(!is_userdata_trait("UserData"));
    assert_eq!(parse_name_attr(r#"name = "foo""#), Some("foo".to_string()));
    assert_eq!(parse_name_attr("rename"), None);
    assert_eq!(closure_params_snippet("|a, b: u8| a"), Some("a, b: u8"));
    assert_eq!(top_level_param_type_annotation("(a, b): (u8, u8)"), Some("(u8, u8)"));
    assert_eq!(last_path_segment("a::B<c::D>"), "B<c::D>");
    assert_eq!(extract_balanced_generic_arg("Foo<Bar>> rest"), Some(("Foo<Bar>", 9)));
    assert_eq!(
        extract_cross_module_call_from_snippet(r#"t.get("fs")?.get("read")?.call(())"#),
        Some("fs.read".to_string())
    );
    assert_eq!(snippet_type_before_method("a::b::Foo::new()", "new"), Some("Foo".to_string()));
    assert_eq!(
        snippet_generic_type_name("x.take::<mlua::Table>()", "take::<"),
        Some("Table".to_string())
    );
    assert_eq!(
        extract_iter_value_arg_from_class_name("Iter<Foo, Bar<A, B>>"),
        Some("Bar<A, B>".to_string())
    );
    assert_eq!(extract_iter_value_arg_from_class_name("Iter<Foo>"), None);
}

#[test]
fn sysroot_output_is_trimmed() {
    assert_eq!(
        sysroot_from_print_output("/home/u/.rustup/toolchains/nightly\n"),
        Some("/home/u/.rustup/toolchains/nightly".to_string())
    );
    assert_eq!(sysroot_from_print_output("  \n"), None);
    assert_eq!(sysroot_from_print_output(""), None);
}

#[test]
fn sysroot_from_an_absolute_rustc_path() {
    assert_eq!(sysroot_from_rustc_path("/opt/tc/bin/rustc"), Some("/opt/tc".to_string()));
    assert_eq!(sysroot_from_rustc_path("rustc"), None);
    assert_eq!(sysroot_from_rustc_path("bin/rustc"), None);
    assert_eq!(sysroot_from_rustc_path("/rustc"), None);
    assert_eq!(sysroot_from_rustc_path(""), None);
    let sysroot = sysroot_from_rustc_path("/opt/tc/bin/rustc");
    assert_eq!(
        make_compiler_args("/opt/tc/bin/rustc".to_string(), &["--edition=2021".to_string()], sysroot),
        vec![
            "/opt/tc/bin/rustc".to_string(),
            "--edition=2021".to_string(),
            "--sysroot".to_string(),
            "/opt/tc".to_string()
        ]
    );
}

#[test]
fn sysroot_from_the_parts_of_a_path() {
    assert_eq!(sysroot_from_path_parts(true, Some("/opt/tc".to_string())), Some("/opt/tc".to_string()));
    assert_eq!(sysroot_from_path_parts(false, Some("/opt/tc".to_string())), None);
    assert_eq!(sysroot_from_path_parts(true, None), None);
}
