use mlua_typegen::codegen::{generate_stubs, generate_stubs_for, params_to_str, write_params};
use mlua_typegen::{
    CodegenTarget, LuaApi, LuaClass, LuaEnum, LuaField, LuaFunction, LuaMethod, LuaModule, LuaParam,
    LuaType, MethodKind,
};

// ── LuaType Display tests ──────────────────────────────────────────

#[test]
fn display_nil() {
    assert_eq!(LuaType::Nil.to_string(), "nil");
}

#[test]
fn display_boolean() {
    assert_eq!(LuaType::Boolean.to_string(), "boolean");
}

#[test]
fn display_integer() {
    assert_eq!(LuaType::Integer.to_string(), "integer");
}

#[test]
fn display_number() {
    assert_eq!(LuaType::Number.to_string(), "number");
}

#[test]
fn display_string() {
    assert_eq!(LuaType::String.to_string(), "string");
}

#[test]
fn display_table() {
    assert_eq!(LuaType::Table.to_string(), "table");
}

#[test]
fn display_function() {
    assert_eq!(LuaType::Function.to_string(), "function");
}

#[test]
fn display_any() {
    assert_eq!(LuaType::Any.to_string(), "any");
}

#[test]
fn display_thread() {
    assert_eq!(LuaType::Thread.to_string(), "thread");
}

#[test]
fn display_array() {
    assert_eq!(
        LuaType::Array(Box::new(LuaType::String)).to_string(),
        "string[]"
    );
}

#[test]
fn display_nested_array() {
    assert_eq!(
        LuaType::Array(Box::new(LuaType::Array(Box::new(LuaType::Integer)))).to_string(),
        "integer[][]"
    );
}

#[test]
fn display_optional() {
    assert_eq!(
        LuaType::Optional(Box::new(LuaType::String)).to_string(),
        "string?"
    );
}

#[test]
fn display_optional_union() {
    assert_eq!(
        LuaType::Optional(Box::new(LuaType::Union(vec![
            LuaType::String,
            LuaType::Number
        ])))
        .to_string(),
        "(string | number)?"
    );
}

#[test]
fn display_optional_array() {
    assert_eq!(
        LuaType::Optional(Box::new(LuaType::Array(Box::new(LuaType::Integer)))).to_string(),
        "integer[]?"
    );
}

#[test]
fn display_map() {
    assert_eq!(
        LuaType::TypedTable(Box::new(LuaType::String), Box::new(LuaType::Integer)).to_string(),
        "table<string, integer>"
    );
}

#[test]
fn display_map_nested_value() {
    assert_eq!(
        LuaType::TypedTable(
            Box::new(LuaType::String),
            Box::new(LuaType::Array(Box::new(LuaType::Boolean)))
        )
        .to_string(),
        "table<string, boolean[]>"
    );
}

#[test]
fn display_class() {
    assert_eq!(LuaType::Class("MyClass".to_string()).to_string(), "MyClass");
}

#[test]
fn display_string_literal_single() {
    assert_eq!(
        LuaType::StringLiteral(vec!["hello".to_string()]).to_string(),
        "\"hello\""
    );
}

#[test]
fn display_string_literal_multiple() {
    assert_eq!(
        LuaType::StringLiteral(vec!["a".to_string(), "b".to_string(), "c".to_string()])
            .to_string(),
        "\"a\" | \"b\" | \"c\""
    );
}

#[test]
fn display_variadic() {
    assert_eq!(
        LuaType::Variadic(Box::new(LuaType::String)).to_string(),
        "string..."
    );
}

#[test]
fn display_variadic_any() {
    assert_eq!(
        LuaType::Variadic(Box::new(LuaType::Any)).to_string(),
        "any..."
    );
}

#[test]
fn display_function_sig_no_args() {
    assert_eq!(
        LuaType::FunctionSig {
            params: vec![],
            returns: vec![]
        }
        .to_string(),
        "fun()"
    );
}

#[test]
fn display_function_sig_with_params() {
    assert_eq!(
        LuaType::FunctionSig {
            params: vec![LuaType::Integer, LuaType::String],
            returns: vec![LuaType::Boolean],
        }
        .to_string(),
        "fun(p1: integer, p2: string): boolean"
    );
}

#[test]
fn display_function_sig_multi_return() {
    assert_eq!(
        LuaType::FunctionSig {
            params: vec![LuaType::Any],
            returns: vec![LuaType::String, LuaType::Integer],
        }
        .to_string(),
        "fun(p1: any): string, integer"
    );
}

#[test]
fn display_function_sig_no_return() {
    assert_eq!(
        LuaType::FunctionSig {
            params: vec![LuaType::String],
            returns: vec![],
        }
        .to_string(),
        "fun(p1: string)"
    );
}

// ── Codegen: class tests ───────────────────────────────────────────

#[test]
fn generates_class_with_fields_and_methods() {
    let api = LuaApi {
        classes: vec![LuaClass {
            name: "Buffer".to_string(),
            doc: None,
            fields: vec![LuaField {
                name: "document_id".to_string(),
                ty: LuaType::String,
                writable: false,
                doc: None,
            }],
            methods: vec![
                LuaMethod {
                    name: "get_text".to_string(),
                    kind: MethodKind::Method,
                    is_async: false,
                    params: vec![],
                    returns: vec![LuaType::String.into()],
                    doc: None,
                },
                LuaMethod {
                    name: "get_range_text".to_string(),
                    kind: MethodKind::Method,
                    is_async: false,
                    params: vec![
                        LuaParam {
                            name: "start".to_string(),
                            ty: LuaType::Class("Position".to_string()),
                        },
                        LuaParam {
                            name: "stop".to_string(),
                            ty: LuaType::Class("Position".to_string()),
                        },
                    ],
                    returns: vec![LuaType::String.into()],
                    doc: None,
                },
                LuaMethod {
                    name: "diagnostics".to_string(),
                    kind: MethodKind::Method,
                    is_async: false,
                    params: vec![],
                    returns: vec![
                        LuaType::Array(Box::new(LuaType::Class("Diagnostic".to_string())))
                            .into(),
                    ],
                    doc: None,
                },
                LuaMethod {
                    name: "create".to_string(),
                    kind: MethodKind::Function,
                    is_async: false,
                    params: vec![LuaParam {
                        name: "path".to_string(),
                        ty: LuaType::String,
                    }],
                    returns: vec![LuaType::Class("Buffer".to_string()).into()],
                    doc: None,
                },
            ],
        }],
        ..Default::default()
    };

    let output = generate_stubs(&api);
    let expected = "\
---@meta

---@class Buffer
---@field document_id string (readonly)
local Buffer = {}

---@return string
function Buffer:get_text() end

---@param start Position
---@param stop Position
---@return string
function Buffer:get_range_text(start, stop) end

---@return Diagnostic[]
function Buffer:diagnostics() end

---@param path string
---@return Buffer
function Buffer.create(path) end
";
    assert_eq!(output, expected);
}

#[test]
fn generates_writable_field() {
    let api = LuaApi {
        classes: vec![LuaClass {
            name: "Config".to_string(),
            doc: None,
            fields: vec![LuaField {
                name: "debug".to_string(),
                ty: LuaType::Boolean,
                writable: true,
                doc: None,
            }],
            methods: vec![],
        }],
        ..Default::default()
    };
    let output = generate_stubs(&api);
    assert!(output.contains("---@field debug boolean\n"));
    assert!(!output.contains("(readonly)"));
}

#[test]
fn generates_class_no_methods() {
    let api = LuaApi {
        classes: vec![LuaClass {
            name: "Point".to_string(),
            doc: None,
            fields: vec![
                LuaField {
                    name: "x".to_string(),
                    ty: LuaType::Number,
                    writable: false,
                    doc: None,
                },
                LuaField {
                    name: "y".to_string(),
                    ty: LuaType::Number,
                    writable: false,
                    doc: None,
                },
            ],
            methods: vec![],
        }],
        ..Default::default()
    };
    let output = generate_stubs(&api);
    assert!(output.contains("---@class Point\n---@field x number (readonly)\n---@field y number (readonly)\nlocal Point = {}\n"));
}

// ── Codegen: enum tests ────────────────────────────────────────────

#[test]
fn generates_enum_alias() {
    let api = LuaApi {
        enums: vec![LuaEnum {
            name: "LogLevel".to_string(),
            doc: None,
            variants: vec![
                "debug".to_string(),
                "info".to_string(),
                "warn".to_string(),
                "error".to_string(),
            ],
            pascal_variants: vec![
                "Debug".to_string(),
                "Info".to_string(),
                "Warn".to_string(),
                "Error".to_string(),
            ],
        }],
        ..Default::default()
    };

    let output = generate_stubs(&api);
    assert!(output.contains("---@alias LogLevel \"debug\" | \"info\" | \"warn\" | \"error\""));
    assert!(output.contains("---@class LogLevelActions"));
    assert!(output.contains("---@field Debug LogLevel | EnumVariant"));
    assert!(output.contains("---@field Error LogLevel | EnumVariant"));
}

#[test]
fn generates_single_variant_enum() {
    let api = LuaApi {
        enums: vec![LuaEnum {
            name: "OnlyOne".to_string(),
            doc: None,
            variants: vec!["sole".to_string()],
            pascal_variants: vec!["Sole".to_string()],
        }],
        ..Default::default()
    };
    let output = generate_stubs(&api);
    assert!(output.contains("---@alias OnlyOne \"sole\"\n"));
}

// ── Codegen: module tests ──────────────────────────────────────────

#[test]
fn generates_module_with_functions() {
    let api = LuaApi {
        modules: vec![LuaModule {
            name: "fs".to_string(),
            doc: None,
            fields: vec![],
            functions: vec![
                LuaFunction {
                    name: "read_file".to_string(),
                    is_async: false,
                    params: vec![LuaParam {
                        name: "path".to_string(),
                        ty: LuaType::String,
                    }],
                    returns: vec![LuaType::String.into()],
                    doc: None,
                },
                LuaFunction {
                    name: "exists".to_string(),
                    is_async: false,
                    params: vec![LuaParam {
                        name: "path".to_string(),
                        ty: LuaType::String,
                    }],
                    returns: vec![LuaType::Boolean.into()],
                    doc: None,
                },
            ],
        }],
        ..Default::default()
    };

    let output = generate_stubs(&api);
    let expected = "\
---@meta

---@class fs
fs = {}

---@param path string
---@return string
function fs.read_file(path) end

---@param path string
---@return boolean
function fs.exists(path) end
";
    assert_eq!(output, expected);
}

#[test]
fn generates_module_with_fields() {
    let api = LuaApi {
        modules: vec![LuaModule {
            name: "constants".to_string(),
            doc: None,
            fields: vec![
                LuaField {
                    name: "VERSION".to_string(),
                    ty: LuaType::String,
                    writable: false,
                    doc: None,
                },
                LuaField {
                    name: "MAX_SIZE".to_string(),
                    ty: LuaType::Integer,
                    writable: false,
                    doc: None,
                },
            ],
            functions: vec![],
        }],
        ..Default::default()
    };
    let output = generate_stubs(&api);
    assert!(output.contains("---@field VERSION string (readonly)\n"));
    assert!(output.contains("---@field MAX_SIZE integer (readonly)\n"));
}

// ── Codegen: global function tests ─────────────────────────────────

#[test]
fn generates_global_functions() {
    let api = LuaApi {
        global_fields: vec![],
        global_functions: vec![LuaFunction {
            name: "print_colored".to_string(),
            is_async: false,
            params: vec![
                LuaParam {
                    name: "msg".to_string(),
                    ty: LuaType::String,
                },
                LuaParam {
                    name: "color".to_string(),
                    ty: LuaType::String,
                },
            ],
            returns: vec![],
            doc: None,
        }],
        ..Default::default()
    };

    let output = generate_stubs(&api);
    let expected = "\
---@meta

---@param msg string
---@param color string
function print_colored(msg, color) end
";
    assert_eq!(output, expected);
}

#[test]
fn generates_global_function_no_params_no_return() {
    let api = LuaApi {
        global_fields: vec![],
        global_functions: vec![LuaFunction {
            name: "noop".to_string(),
            is_async: false,
            params: vec![],
            returns: vec![],
            doc: None,
        }],
        ..Default::default()
    };
    let output = generate_stubs(&api);
    assert!(output.contains("function noop() end\n"));
}

#[test]
fn generates_global_fields() {
    let api = LuaApi {
        global_fields: vec![crate::LuaField {
            name: "rt".to_string(),
            ty: LuaType::Table,
            writable: true,
            doc: None,
        }],
        ..Default::default()
    };

    let output = generate_stubs(&api);
    assert!(output.contains("---@type table\nrt = rt\n"));
}

// ── Codegen: async tests ───────────────────────────────────────────

#[test]
fn generates_async_method() {
    let api = LuaApi {
        classes: vec![LuaClass {
            name: "Http".to_string(),
            doc: None,
            fields: vec![],
            methods: vec![LuaMethod {
                name: "fetch".to_string(),
                kind: MethodKind::Method,
                is_async: true,
                params: vec![LuaParam {
                    name: "url".to_string(),
                    ty: LuaType::String,
                }],
                returns: vec![LuaType::String.into()],
                doc: None,
            }],
        }],
        ..Default::default()
    };

    let output = generate_stubs(&api);
    assert!(output.contains(
        "---@async\n---@param url string\n---@return string\nfunction Http:fetch(url) end"
    ));
}

#[test]
fn generates_async_global_function() {
    let api = LuaApi {
        global_fields: vec![],
        global_functions: vec![LuaFunction {
            name: "sleep".to_string(),
            is_async: true,
            params: vec![LuaParam {
                name: "ms".to_string(),
                ty: LuaType::Integer,
            }],
            returns: vec![],
            doc: None,
        }],
        ..Default::default()
    };
    let output = generate_stubs(&api);
    assert!(output.contains("---@async\n---@param ms integer\nfunction sleep(ms) end"));
}

#[test]
fn generates_async_module_function() {
    let api = LuaApi {
        modules: vec![LuaModule {
            name: "net".to_string(),
            doc: None,
            fields: vec![],
            functions: vec![LuaFunction {
                name: "request".to_string(),
                is_async: true,
                params: vec![LuaParam {
                    name: "url".to_string(),
                    ty: LuaType::String,
                }],
                returns: vec![LuaType::Table.into()],
                doc: None,
            }],
        }],
        ..Default::default()
    };
    let output = generate_stubs(&api);
    assert!(output.contains(
        "---@async\n---@param url string\n---@return table\nfunction net.request(url) end"
    ));
}

// ── Codegen: multi-return tests ────────────────────────────────────

#[test]
fn generates_multi_return() {
    let api = LuaApi {
        classes: vec![LuaClass {
            name: "Parser".to_string(),
            doc: None,
            fields: vec![],
            methods: vec![LuaMethod {
                name: "parse".to_string(),
                kind: MethodKind::Method,
                is_async: false,
                params: vec![LuaParam {
                    name: "input".to_string(),
                    ty: LuaType::String,
                }],
                returns: vec![LuaType::Boolean.into(), LuaType::String.into()],
                doc: None,
            }],
        }],
        ..Default::default()
    };

    let output = generate_stubs(&api);
    assert!(output.contains("---@return boolean\n---@return string\n"));
}

#[test]
fn generates_triple_return() {
    let api = LuaApi {
        global_fields: vec![],
        global_functions: vec![LuaFunction {
            name: "get_rgb".to_string(),
            is_async: false,
            params: vec![],
            returns: vec![
                LuaType::Integer.into(),
                LuaType::Integer.into(),
                LuaType::Integer.into(),
            ],
            doc: None,
        }],
        ..Default::default()
    };
    let output = generate_stubs(&api);
    assert!(output.contains(
        "---@return integer\n---@return integer\n---@return integer\nfunction get_rgb() end"
    ));
}

// ── Codegen: variadic param tests ──────────────────────────────────

#[test]
fn generates_variadic_param() {
    let api = LuaApi {
        global_fields: vec![],
        global_functions: vec![LuaFunction {
            name: "log".to_string(),
            is_async: false,
            params: vec![
                LuaParam {
                    name: "level".to_string(),
                    ty: LuaType::String,
                },
                LuaParam {
                    name: "args".to_string(),
                    ty: LuaType::Variadic(Box::new(LuaType::Any)),
                },
            ],
            returns: vec![],
            doc: None,
        }],
        ..Default::default()
    };
    let output = generate_stubs(&api);
    assert!(
        output.contains(
            "---@param level string\n---@param ... any\nfunction log(level, ...) end"
        )
    );
}

#[test]
fn generates_variadic_only_param() {
    let api = LuaApi {
        global_fields: vec![],
        global_functions: vec![LuaFunction {
            name: "print".to_string(),
            is_async: false,
            params: vec![LuaParam {
                name: "values".to_string(),
                ty: LuaType::Variadic(Box::new(LuaType::Any)),
            }],
            returns: vec![],
            doc: None,
        }],
        ..Default::default()
    };
    let output = generate_stubs(&api);
    assert!(output.contains("---@param ... any\nfunction print(...) end"));
}

#[test]
fn generates_variadic_typed_param() {
    let api = LuaApi {
        global_fields: vec![],
        global_functions: vec![LuaFunction {
            name: "sum".to_string(),
            is_async: false,
            params: vec![LuaParam {
                name: "numbers".to_string(),
                ty: LuaType::Variadic(Box::new(LuaType::Number)),
            }],
            returns: vec![LuaType::Number.into()],
            doc: None,
        }],
        ..Default::default()
    };
    let output = generate_stubs(&api);
    assert!(output.contains("---@param ... number\n---@return number\nfunction sum(...) end"));
}

// ── Codegen: complex type tests ────────────────────────────────────

#[test]
fn generates_optional_return() {
    let api = LuaApi {
        global_fields: vec![],
        global_functions: vec![LuaFunction {
            name: "find".to_string(),
            is_async: false,
            params: vec![LuaParam {
                name: "key".to_string(),
                ty: LuaType::String,
            }],
            returns: vec![LuaType::Optional(Box::new(LuaType::String)).into()],
            doc: None,
        }],
        ..Default::default()
    };
    let output = generate_stubs(&api);
    assert!(output.contains("---@return string?\n"));
}

#[test]
fn generates_map_param() {
    let api = LuaApi {
        global_fields: vec![],
        global_functions: vec![LuaFunction {
            name: "merge".to_string(),
            is_async: false,
            params: vec![LuaParam {
                name: "data".to_string(),
                ty: LuaType::TypedTable(Box::new(LuaType::String), Box::new(LuaType::Any)),
            }],
            returns: vec![LuaType::Table.into()],
            doc: None,
        }],
        ..Default::default()
    };
    let output = generate_stubs(&api);
    assert!(output.contains("---@param data table<string, any>\n"));
}

#[test]
fn generates_array_of_class_return() {
    let api = LuaApi {
        global_fields: vec![],
        global_functions: vec![LuaFunction {
            name: "get_items".to_string(),
            is_async: false,
            params: vec![],
            returns: vec![LuaType::Array(Box::new(LuaType::Class("Item".to_string()))).into()],
            doc: None,
        }],
        ..Default::default()
    };
    let output = generate_stubs(&api);
    assert!(output.contains("---@return Item[]\n"));
}

#[test]
fn generates_thread_return() {
    let api = LuaApi {
        global_fields: vec![],
        global_functions: vec![LuaFunction {
            name: "spawn".to_string(),
            is_async: false,
            params: vec![LuaParam {
                name: "func".to_string(),
                ty: LuaType::Function,
            }],
            returns: vec![LuaType::Thread.into()],
            doc: None,
        }],
        ..Default::default()
    };
    let output = generate_stubs(&api);
    assert!(
        output.contains("---@param func function\n---@return thread\nfunction spawn(func) end")
    );
}

#[test]
fn generates_nil_return() {
    let api = LuaApi {
        global_fields: vec![],
        global_functions: vec![LuaFunction {
            name: "maybe".to_string(),
            is_async: false,
            params: vec![],
            returns: vec![LuaType::Nil.into()],
            doc: None,
        }],
        ..Default::default()
    };
    let output = generate_stubs(&api);
    assert!(output.contains("---@return nil\n"));
}

// ── Codegen: method kind tests ─────────────────────────────────────

#[test]
fn generates_static_method_with_dot() {
    let api = LuaApi {
        classes: vec![LuaClass {
            name: "Vec3".to_string(),
            doc: None,
            fields: vec![],
            methods: vec![LuaMethod {
                name: "new".to_string(),
                kind: MethodKind::Function,
                is_async: false,
                params: vec![
                    LuaParam {
                        name: "x".to_string(),
                        ty: LuaType::Number,
                    },
                    LuaParam {
                        name: "y".to_string(),
                        ty: LuaType::Number,
                    },
                    LuaParam {
                        name: "z".to_string(),
                        ty: LuaType::Number,
                    },
                ],
                returns: vec![LuaType::Class("Vec3".to_string()).into()],
                doc: None,
            }],
        }],
        ..Default::default()
    };
    let output = generate_stubs(&api);
    assert!(output.contains("function Vec3.new(x, y, z) end"));
}

#[test]
fn generates_instance_method_with_colon() {
    let api = LuaApi {
        classes: vec![LuaClass {
            name: "Vec3".to_string(),
            doc: None,
            fields: vec![],
            methods: vec![LuaMethod {
                name: "length".to_string(),
                kind: MethodKind::Method,
                is_async: false,
                params: vec![],
                returns: vec![LuaType::Number.into()],
                doc: None,
            }],
        }],
        ..Default::default()
    };
    let output = generate_stubs(&api);
    assert!(output.contains("function Vec3:length() end"));
}

// ── Codegen: EmmyLua target tests ──────────────────────────────────

#[test]
fn emmylua_class_uses_exact() {
    let api = LuaApi {
        classes: vec![LuaClass {
            name: "Foo".to_string(),
            doc: None,
            fields: vec![],
            methods: vec![],
        }],
        ..Default::default()
    };
    let output = generate_stubs_for(&api, CodegenTarget::EmmyLua);
    assert!(output.contains("---@class (exact) Foo\n"));
}

#[test]
fn luals_class_no_exact() {
    let api = LuaApi {
        classes: vec![LuaClass {
            name: "Foo".to_string(),
            doc: None,
            fields: vec![],
            methods: vec![],
        }],
        ..Default::default()
    };
    let output = generate_stubs_for(&api, CodegenTarget::LuaLS);
    assert!(output.contains("---@class Foo\n"));
    assert!(!output.contains("(exact)"));
}

// ── Codegen: combined API tests ────────────────────────────────────

#[test]
fn generates_full_api_with_all_sections() {
    let api = LuaApi {
        enums: vec![LuaEnum {
            name: "Color".to_string(),
            doc: None,
            variants: vec!["red".to_string(), "green".to_string(), "blue".to_string()],
            pascal_variants: vec!["Red".to_string(), "Green".to_string(), "Blue".to_string()],
        }],
        classes: vec![LuaClass {
            name: "Canvas".to_string(),
            doc: None,
            fields: vec![LuaField {
                name: "width".to_string(),
                ty: LuaType::Integer,
                writable: true,
                doc: None,
            }],
            methods: vec![LuaMethod {
                name: "draw".to_string(),
                kind: MethodKind::Method,
                is_async: false,
                params: vec![],
                returns: vec![],
                doc: None,
            }],
        }],
        modules: vec![LuaModule {
            name: "gfx".to_string(),
            doc: None,
            fields: vec![],
            functions: vec![LuaFunction {
                name: "init".to_string(),
                is_async: false,
                params: vec![],
                returns: vec![LuaType::Boolean.into()],
                doc: None,
            }],
        }],
        global_fields: vec![],
        global_functions: vec![LuaFunction {
            name: "quit".to_string(),
            is_async: false,
            params: vec![],
            returns: vec![],
            doc: None,
        }],
    };
    let output = generate_stubs(&api);
    let alias_pos = output.find("---@alias Color").unwrap();
    let class_pos = output.find("---@class Canvas").unwrap();
    let module_pos = output.find("---@class gfx").unwrap();
    let global_pos = output.find("function quit()").unwrap();
    assert!(alias_pos < class_pos);
    assert!(class_pos < module_pos);
    assert!(module_pos < global_pos);
}

#[test]
fn generates_string_literal_field_type() {
    let api = LuaApi {
        classes: vec![LuaClass {
            name: "Event".to_string(),
            doc: None,
            fields: vec![LuaField {
                name: "kind".to_string(),
                ty: LuaType::StringLiteral(vec!["click".to_string(), "hover".to_string()]),
                writable: false,
                doc: None,
            }],
            methods: vec![],
        }],
        ..Default::default()
    };
    let output = generate_stubs(&api);
    assert!(output.contains("---@field kind \"click\" | \"hover\" (readonly)"));
}

#[test]
fn empty_api_generates_only_meta() {
    let api = LuaApi::default();
    let output = generate_stubs(&api);
    assert_eq!(output, "---@meta\n");
}

// ── Codegen: doc comment tests ─────────────────────────────────────

#[test]
fn generates_class_doc() {
    let api = LuaApi {
        classes: vec![LuaClass {
            name: "Player".to_string(),
            doc: Some("Represents a player in the game.".to_string()),
            fields: vec![],
            methods: vec![],
        }],
        ..Default::default()
    };
    let output = generate_stubs(&api);
    assert!(output.contains("--- Represents a player in the game.\n---@class Player\n"));
}

#[test]
fn generates_multiline_class_doc() {
    let api = LuaApi {
        classes: vec![LuaClass {
            name: "Player".to_string(),
            doc: Some("Represents a player.\n\nThis is the main entity.".to_string()),
            fields: vec![],
            methods: vec![],
        }],
        ..Default::default()
    };
    let output = generate_stubs(&api);
    assert!(output.contains(
        "--- Represents a player.\n---\n--- This is the main entity.\n---@class Player\n"
    ));
}

#[test]
fn generates_method_doc() {
    let api = LuaApi {
        classes: vec![LuaClass {
            name: "Player".to_string(),
            doc: None,
            fields: vec![],
            methods: vec![LuaMethod {
                name: "move_to".to_string(),
                kind: MethodKind::Method,
                is_async: false,
                params: vec![
                    LuaParam {
                        name: "x".to_string(),
                        ty: LuaType::Number,
                    },
                    LuaParam {
                        name: "y".to_string(),
                        ty: LuaType::Number,
                    },
                ],
                returns: vec![],
                doc: Some("Move the player to the given position.".to_string()),
            }],
        }],
        ..Default::default()
    };
    let output = generate_stubs(&api);
    assert!(
        output.contains("--- Move the player to the given position.\n---@param x number\n")
    );
}

#[test]
fn generates_enum_doc() {
    let api = LuaApi {
        enums: vec![LuaEnum {
            name: "Direction".to_string(),
            doc: Some("Cardinal directions.".to_string()),
            variants: vec!["north".to_string(), "south".to_string()],
            pascal_variants: vec!["North".to_string(), "South".to_string()],
        }],
        ..Default::default()
    };
    let output = generate_stubs(&api);
    assert!(output.contains("--- Cardinal directions.\n---@alias Direction"));
}

#[test]
fn generates_module_doc() {
    let api = LuaApi {
        modules: vec![LuaModule {
            name: "fs".to_string(),
            doc: Some("File system utilities.".to_string()),
            fields: vec![],
            functions: vec![],
        }],
        ..Default::default()
    };
    let output = generate_stubs(&api);
    assert!(output.contains("--- File system utilities.\n---@class fs\n"));
}

#[test]
fn generates_global_function_doc() {
    let api = LuaApi {
        global_fields: vec![],
        global_functions: vec![LuaFunction {
            name: "greet".to_string(),
            is_async: false,
            params: vec![LuaParam {
                name: "name".to_string(),
                ty: LuaType::String,
            }],
            returns: vec![LuaType::String.into()],
            doc: Some("Greet someone by name.".to_string()),
        }],
        ..Default::default()
    };
    let output = generate_stubs(&api);
    assert!(output.contains("--- Greet someone by name.\n---@param name string\n---@return string\nfunction greet(name) end"));
}

#[test]
fn generates_field_doc_inline() {
    let api = LuaApi {
        classes: vec![LuaClass {
            name: "Config".to_string(),
            doc: None,
            fields: vec![LuaField {
                name: "verbose".to_string(),
                ty: LuaType::Boolean,
                writable: true,
                doc: Some("Enable verbose logging.".to_string()),
            }],
            methods: vec![],
        }],
        ..Default::default()
    };
    let output = generate_stubs(&api);
    assert!(output.contains("---@field verbose boolean Enable verbose logging.\n"));
}

// ── Codegen: overload tests ─────────────────────────────────────────

#[test]
fn generates_overloaded_methods() {
    let api = LuaApi {
        classes: vec![LuaClass {
            name: "Buffer".to_string(),
            doc: None,
            fields: vec![],
            methods: vec![
                LuaMethod {
                    name: "insert".to_string(),
                    kind: MethodKind::Method,
                    is_async: false,
                    params: vec![LuaParam {
                        name: "text".to_string(),
                        ty: LuaType::String,
                    }],
                    returns: vec![],
                    doc: Some("Insert text at cursor.".to_string()),
                },
                LuaMethod {
                    name: "insert".to_string(),
                    kind: MethodKind::Method,
                    is_async: false,
                    params: vec![
                        LuaParam {
                            name: "pos".to_string(),
                            ty: LuaType::Integer,
                        },
                        LuaParam {
                            name: "text".to_string(),
                            ty: LuaType::String,
                        },
                    ],
                    returns: vec![],
                    doc: None,
                },
            ],
        }],
        ..Default::default()
    };
    let output = generate_stubs(&api);
    assert!(output.contains("---@overload fun(text: string)"));
    assert!(output.contains("---@overload fun(pos: integer, text: string)"));
    assert!(output.contains("function Buffer:insert(text) end"));
}

#[test]
fn generates_overloaded_with_returns() {
    let api = LuaApi {
        classes: vec![LuaClass {
            name: "Parser".to_string(),
            doc: None,
            fields: vec![],
            methods: vec![
                LuaMethod {
                    name: "parse".to_string(),
                    kind: MethodKind::Method,
                    is_async: false,
                    params: vec![LuaParam {
                        name: "input".to_string(),
                        ty: LuaType::String,
                    }],
                    returns: vec![LuaType::Table.into()],
                    doc: None,
                },
                LuaMethod {
                    name: "parse".to_string(),
                    kind: MethodKind::Method,
                    is_async: false,
                    params: vec![
                        LuaParam {
                            name: "input".to_string(),
                            ty: LuaType::String,
                        },
                        LuaParam {
                            name: "opts".to_string(),
                            ty: LuaType::Table,
                        },
                    ],
                    returns: vec![LuaType::Table.into(), LuaType::Boolean.into()],
                    doc: None,
                },
            ],
        }],
        ..Default::default()
    };
    let output = generate_stubs(&api);
    assert!(output.contains("---@overload fun(input: string): table"));
    assert!(output.contains("---@overload fun(input: string, opts: table): table, boolean"));
}

// ── Codegen: field keyword escaping tests ──────────────────────────

#[test]
fn escapes_lua_keyword_field_name() {
    let api = LuaApi {
        classes: vec![LuaClass {
            name: "Node".to_string(),
            doc: None,
            fields: vec![
                LuaField {
                    name: "end".to_string(),
                    ty: LuaType::Integer,
                    writable: false,
                    doc: None,
                },
                LuaField {
                    name: "function".to_string(),
                    ty: LuaType::String,
                    writable: false,
                    doc: None,
                },
            ],
            methods: vec![],
        }],
        ..Default::default()
    };
    let output = generate_stubs(&api);
    assert!(output.contains("---@field [\"end\"] integer (readonly)"));
    assert!(output.contains("---@field [\"function\"] string (readonly)"));
}

#[test]
fn normal_field_not_escaped() {
    let api = LuaApi {
        classes: vec![LuaClass {
            name: "Foo".to_string(),
            doc: None,
            fields: vec![LuaField {
                name: "name".to_string(),
                ty: LuaType::String,
                writable: false,
                doc: None,
            }],
            methods: vec![],
        }],
        ..Default::default()
    };
    let output = generate_stubs(&api);
    assert!(output.contains("---@field name string (readonly)"));
}

#[test]
fn escapes_non_ident_field_name() {
    let api = LuaApi {
        classes: vec![LuaClass {
            name: "Foo".to_string(),
            doc: None,
            fields: vec![LuaField {
                name: "my-field".to_string(),
                ty: LuaType::String,
                writable: false,
                doc: None,
            }],
            methods: vec![],
        }],
        ..Default::default()
    };
    let output = generate_stubs(&api);
    assert!(output.contains("---@field [\"my-field\"] string (readonly)"));
}

// ── Codegen: module overload tests ──────────────────────────────────

#[test]
fn generates_overloaded_module_functions() {
    let api = LuaApi {
        modules: vec![LuaModule {
            name: "fs".to_string(),
            doc: None,
            fields: vec![],
            functions: vec![
                LuaFunction {
                    name: "read".to_string(),
                    is_async: false,
                    params: vec![LuaParam {
                        name: "path".to_string(),
                        ty: LuaType::String,
                    }],
                    returns: vec![LuaType::String.into()],
                    doc: None,
                },
                LuaFunction {
                    name: "read".to_string(),
                    is_async: false,
                    params: vec![
                        LuaParam {
                            name: "path".to_string(),
                            ty: LuaType::String,
                        },
                        LuaParam {
                            name: "encoding".to_string(),
                            ty: LuaType::String,
                        },
                    ],
                    returns: vec![LuaType::String.into()],
                    doc: None,
                },
            ],
        }],
        ..Default::default()
    };
    let output = generate_stubs(&api);
    assert!(output.contains("---@overload fun(path: string): string"));
    assert!(output.contains("---@overload fun(path: string, encoding: string): string"));
    assert!(output.contains("function fs.read(path) end"));
}

#[test]
fn no_extra_blank_lines_for_overloads() {
    let api = LuaApi {
        classes: vec![LuaClass {
            name: "T".to_string(),
            doc: None,
            fields: vec![],
            methods: vec![
                LuaMethod {
                    name: "f".to_string(),
                    kind: MethodKind::Method,
                    is_async: false,
                    params: vec![],
                    returns: vec![],
                    doc: None,
                },
                LuaMethod {
                    name: "f".to_string(),
                    kind: MethodKind::Method,
                    is_async: false,
                    params: vec![LuaParam {
                        name: "x".to_string(),
                        ty: LuaType::Integer,
                    }],
                    returns: vec![],
                    doc: None,
                },
                LuaMethod {
                    name: "g".to_string(),
                    kind: MethodKind::Method,
                    is_async: false,
                    params: vec![],
                    returns: vec![],
                    doc: None,
                },
            ],
        }],
        ..Default::default()
    };
    let output = generate_stubs(&api);
    // Should not have triple newlines from skipped overload entries
    assert!(!output.contains("\n\n\n"));
}

#[test]
fn generates_doc_before_async() {
    let api = LuaApi {
        classes: vec![LuaClass {
            name: "Net".to_string(),
            doc: None,
            fields: vec![],
            methods: vec![LuaMethod {
                name: "fetch".to_string(),
                kind: MethodKind::Method,
                is_async: true,
                params: vec![LuaParam {
                    name: "url".to_string(),
                    ty: LuaType::String,
                }],
                returns: vec![LuaType::String.into()],
                doc: Some("Fetch a URL.".to_string()),
            }],
        }],
        ..Default::default()
    };
    let output = generate_stubs(&api);
    assert!(output.contains("--- Fetch a URL.\n---@async\n---@param url string\n"));
}

// ── Display: array of optional needs parens ────────────────────────

#[test]
fn display_array_of_optional() {
    // Array(Optional(String)) → "(string?)[]" not "string?[]"
    assert_eq!(
        LuaType::Array(Box::new(LuaType::Optional(Box::new(LuaType::String)))).to_string(),
        "(string?)[]"
    );
}

#[test]
fn display_array_of_map() {
    // Array(Map(K,V)) → "(table<string, integer>)[]"
    assert_eq!(
        LuaType::Array(Box::new(LuaType::TypedTable(
            Box::new(LuaType::String),
            Box::new(LuaType::Integer),
        )))
        .to_string(),
        "(table<string, integer>)[]"
    );
}

#[test]
fn display_array_of_simple_no_parens() {
    // Simple inner types don't get parens
    assert_eq!(
        LuaType::Array(Box::new(LuaType::String)).to_string(),
        "string[]"
    );
    assert_eq!(
        LuaType::Array(Box::new(LuaType::Class("Player".to_string()))).to_string(),
        "Player[]"
    );
}

// ── Method name keyword escaping ──────────────────────────────────

#[test]
fn escapes_lua_keyword_method_name() {
    let api = LuaApi {
        classes: vec![LuaClass {
            name: "Obj".to_string(),
            doc: None,
            fields: vec![],
            methods: vec![LuaMethod {
                name: "end".to_string(),
                kind: MethodKind::Method,
                is_async: false,
                params: vec![],
                returns: vec![],
                doc: None,
            }],
        }],
        ..Default::default()
    };
    let output = generate_stubs(&api);
    assert!(
        output.contains("function Obj[\"end\"]() end"),
        "got: {output}"
    );
}

#[test]
fn normal_method_name_not_escaped() {
    let api = LuaApi {
        classes: vec![LuaClass {
            name: "Obj".to_string(),
            doc: None,
            fields: vec![],
            methods: vec![LuaMethod {
                name: "update".to_string(),
                kind: MethodKind::Method,
                is_async: false,
                params: vec![],
                returns: vec![],
                doc: None,
            }],
        }],
        ..Default::default()
    };
    let output = generate_stubs(&api);
    assert!(
        output.contains("function Obj:update() end"),
        "got: {output}"
    );
}

#[test]
fn escapes_lua_keyword_module_function_name() {
    let api = LuaApi {
        modules: vec![LuaModule {
            name: "mymod".to_string(),
            doc: None,
            functions: vec![LuaFunction {
                name: "repeat".to_string(),
                is_async: false,
                params: vec![],
                returns: vec![],
                doc: None,
            }],
            fields: vec![],
        }],
        ..Default::default()
    };
    let output = generate_stubs(&api);
    assert!(
        output.contains("function mymod[\"repeat\"]() end"),
        "got: {output}"
    );
}

#[test]
fn parameter_list_names_match_param_lines() {
    let params = vec![
        LuaParam { name: "a".to_string(), ty: LuaType::Integer },
        LuaParam { name: "lua".to_string(), ty: LuaType::Nil },
        LuaParam { name: "b".to_string(), ty: LuaType::Optional(Box::new(LuaType::String)) },
        LuaParam { name: "rest".to_string(), ty: LuaType::Variadic(Box::new(LuaType::Any)) },
    ];
    let list = params_to_str(&params);
    assert_eq!(list, "a, b, ...");
    let mut out = String::new();
    write_params(&mut out, &params);
    let line_names: Vec<&str> = out.lines().map(|l| l.split(' ').nth(1).unwrap()).collect();
    let list_names: Vec<&str> = list.split(", ").collect();
    assert_eq!(line_names, list_names);
}

#[test]
fn classes_render_independently_and_targets_differ_only_in_headers() {
    let class = |name: &str| LuaClass {
        name: name.to_string(),
        doc: None,
        fields: Vec::new(),
        methods: Vec::new(),
    };
    let mut a1 = LuaApi::default();
    a1.classes.push(class("A"));
    let mut a2 = LuaApi::default();
    a2.classes.push(class("B"));
    let mut a = LuaApi::default();
    a.classes.push(class("A"));
    a.classes.push(class("B"));
    for t in [CodegenTarget::LuaLS, CodegenTarget::EmmyLua] {
        let both = generate_stubs_for(&a, t);
        let first = generate_stubs_for(&a1, t);
        let second = generate_stubs_for(&a2, t);
        assert_eq!(both, first + &second["---@meta\n".len()..]);
    }
    let luals = generate_stubs_for(&a, CodegenTarget::LuaLS);
    let emmy = generate_stubs_for(&a, CodegenTarget::EmmyLua);
    assert_eq!(emmy.replace("---@class (exact) ", "---@class "), luals);
    let mut m = LuaApi::default();
    m.modules.push(LuaModule {
        name: "m".to_string(),
        doc: None,
        functions: Vec::new(),
        fields: Vec::new(),
    });
    assert_eq!(
        generate_stubs_for(&m, CodegenTarget::EmmyLua),
        generate_stubs_for(&m, CodegenTarget::LuaLS)
    );
}

#[test]
fn annotation_text_reads_back() {
    let b = |t: LuaType| Box::new(t);
    let cases = vec![
        LuaType::Array(b(LuaType::Optional(b(LuaType::Integer)))),
        LuaType::Optional(b(LuaType::Array(b(LuaType::Class("File".to_string()))))),
        LuaType::TypedTable(
            b(LuaType::String),
            b(LuaType::TypedTable(b(LuaType::Integer), b(LuaType::Boolean))),
        ),
        LuaType::Array(b(LuaType::TypedTable(b(LuaType::String), b(LuaType::Any)))),
        LuaType::Variadic(b(LuaType::Optional(b(LuaType::Number)))),
        LuaType::Optional(b(LuaType::Optional(b(LuaType::Thread)))),
    ];
    for t in cases {
        let text = t.to_string();
        assert_eq!(mlua_typegen::display::parse_embedded_lua_type(&text), Some(t));
    }
}

#[test]
fn modules_enums_and_globals_render_independently() {
    let module = |name: &str| LuaModule {
        name: name.to_string(),
        doc: None,
        functions: Vec::new(),
        fields: Vec::new(),
    };
    let function = |name: &str| LuaFunction {
        name: name.to_string(),
        is_async: false,
        params: Vec::new(),
        returns: Vec::new(),
        doc: None,
    };
    let enumeration = |name: &str| LuaEnum {
        name: name.to_string(),
        doc: None,
        variants: vec!["a".to_string()],
        pascal_variants: Vec::new(),
    };
    let field = |name: &str| LuaField { name: name.to_string(), ty: LuaType::Integer, writable: true, doc: None };
    let meta = "---@meta\n".len();
    for t in [CodegenTarget::LuaLS, CodegenTarget::EmmyLua] {
        let (mut a1, mut a2, mut a) = (LuaApi::default(), LuaApi::default(), LuaApi::default());
        a1.modules.push(module("m1"));
        a2.modules.push(module("m2"));
        a.modules.push(module("m1"));
        a.modules.push(module("m2"));
        assert_eq!(generate_stubs_for(&a, t), generate_stubs_for(&a1, t) + &generate_stubs_for(&a2, t)[meta..]);
        let (mut a1, mut a2, mut a) = (LuaApi::default(), LuaApi::default(), LuaApi::default());
        a1.enums.push(enumeration("E1"));
        a2.enums.push(enumeration("E2"));
        a.enums.push(enumeration("E1"));
        a.enums.push(enumeration("E2"));
        assert_eq!(generate_stubs_for(&a, t), generate_stubs_for(&a1, t) + &generate_stubs_for(&a2, t)[meta..]);
        let (mut a1, mut a2, mut a) = (LuaApi::default(), LuaApi::default(), LuaApi::default());
        a1.global_functions.push(function("f"));
        a2.global_functions.push(function("g"));
        a.global_functions.push(function("f"));
        a.global_functions.push(function("g"));
        assert_eq!(generate_stubs_for(&a, t), generate_stubs_for(&a1, t) + &generate_stubs_for(&a2, t)[meta..]);
        let (mut a1, mut a2, mut a) = (LuaApi::default(), LuaApi::default(), LuaApi::default());
        a1.global_fields.push(field("X"));
        a2.global_fields.push(field("Y"));
        a.global_fields.push(field("X"));
        a.global_fields.push(field("Y"));
        assert_eq!(generate_stubs_for(&a, t), generate_stubs_for(&a1, t) + &generate_stubs_for(&a2, t)[meta..]);
    }
}
