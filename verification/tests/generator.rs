use wasm_glue::codegen::{GenError, Js, Mapped};
use wasm_glue::module_view::{
    ExportEntry, ExportKind, FuncType, ImportEntry, ImportKind, ModuleView,
};
use wasm_glue::name_map::NameMapper;
use wasm_glue::text::make_indexed_name;
use wasm_glue::ty::{Function, HighLevelType, Program, StructDecl};

fn empty_module() -> ModuleView {
    ModuleView { imports: Vec::new(), types: Vec::new(), functions: Vec::new(), exports: Vec::new() }
}

fn mapped(module: ModuleView) -> Mapped {
    Mapped { module, names: NameMapper::identity() }
}

fn env_fn_import(field: &str, ty: usize) -> ImportEntry {
    ImportEntry { module: "env".to_string(), field: field.to_string(), kind: ImportKind::Function(ty) }
}

#[test]
fn indexed_names_render_in_decimal() {
    assert_eq!(make_indexed_name("arg", 0), "arg0");
    assert_eq!(make_indexed_name("ptr", 12), "ptr12");
    assert_eq!(make_indexed_name("len", 107), "len107");
}

#[test]
fn greet_borrowed_string_to_owned_string() {
    let mut js = Js::default();
    js.nodejs = true;
    let m = mapped(empty_module());
    let func = Function {
        name: "greet".to_string(),
        arguments: vec![HighLevelType::BorrowedStr],
        ret: Some(HighLevelType::OwnedStr),
    };
    js.generate_free_function(&func, &m).unwrap();
    assert_eq!(js.exports.len(), 1);
    let (name, body, ts) = &js.exports[0];
    assert_eq!(name, "greet");
    assert_eq!(
        body,
        "function greet(arg0: string): string {\n\
         const [ptr0, len0] = passStringToWasm(arg0);\n\
         try {\n\
         const ret = wasm_exports.greet(ptr0, len0);\n\
         const ptr = wasm_exports.__wbindgen_boxed_str_ptr(ret);\n\
         const len = wasm_exports.__wbindgen_boxed_str_len(ret);\n\
         const realRet = getStringFromWasm(ptr, len);\n\
         wasm_exports.__wbindgen_boxed_str_free(ret);\n\
         return realRet;\n\
         } finally {\n\
         wasm_exports.__wbindgen_free(ptr0, len0);\n\
         }\n\
         }"
    );
    assert_eq!(ts, "greet(arg0: string): string;");
    // The borrowed string pulls in the string-transfer helpers.
    assert!(js.globals.contains("function passStringToWasm"));
    assert!(js.globals.contains("const buf = Buffer.from(arg);"));
    assert!(js.globals.contains("function getStringFromWasm"));
}

#[test]
fn method_with_number_argument_in_debug_mode() {
    let mut js = Js::default();
    js.debug = true;
    let m = mapped(empty_module());
    let counter = StructDecl {
        name: "Counter".to_string(),
        functions: vec![Function {
            name: "new".to_string(),
            arguments: vec![],
            ret: Some(HighLevelType::ByValue("Counter".to_string())),
        }],
        methods: vec![Function {
            name: "add".to_string(),
            arguments: vec![HighLevelType::Number],
            ret: Some(HighLevelType::Number),
        }],
    };
    js.generate_struct(&counter, &m).unwrap();
    assert_eq!(js.classes.len(), 1);
    let class = &js.classes[0];
    assert!(class.starts_with("export class Counter {\n"));
    assert!(class.contains("constructor(public ptr: number, sym: Symbol) {\n_checkToken(sym);\n}\n"));
    assert!(class.contains(
        "free(): void {\nconst ptr = this.ptr;\nthis.ptr = 0;\nwasm_exports.__wbindgen_Counter_free(ptr);\n}\n"
    ));
    assert!(class.contains(
        "static new(): Counter {\n\
         const ret = wasm_exports.Counter_new();\n\
         return new Counter(ret, token);\n\
         }"
    ));
    assert!(class.contains(
        " add(arg0: number): number {\n\
         _assertNum(arg0);\n\
         const ret = wasm_exports.Counter_add(this.ptr, arg0);\n\
         return ret;\n\
         }"
    ));
    // The struct registers itself and its members as bound exports.
    assert_eq!(js.wasm_exports_bound, vec!["Counter", "Counter_new", "Counter_add"]);
    let (name, body, ts) = &js.exports[0];
    assert_eq!(name, "Counter");
    assert_eq!(body, "Counter");
    assert_eq!(ts, "Counter: typeof Counter;");
}

#[test]
fn by_value_argument_nulls_the_wrapper_pointer() {
    let mut js = Js::default();
    let m = mapped(empty_module());
    let func = Function {
        name: "sink".to_string(),
        arguments: vec![HighLevelType::ByValue("Widget".to_string())],
        ret: None,
    };
    js.generate_free_function(&func, &m).unwrap();
    let (_, body, _) = &js.exports[0];
    assert_eq!(
        body,
        "function sink(arg0: Widget): void {\n\
         const ptr0 = arg0.ptr;\n\
         arg0.ptr = 0;\n\
         const ret = wasm_exports.sink(ptr0);\n\
         return ret;\n\
         }"
    );
}

#[test]
fn js_object_ref_argument_pops_the_stack_on_every_exit() {
    let mut js = Js::default();
    let m = mapped(empty_module());
    let func = Function {
        name: "peek".to_string(),
        arguments: vec![HighLevelType::JsObjectRef],
        ret: Some(HighLevelType::Boolean),
    };
    js.generate_free_function(&func, &m).unwrap();
    let (_, body, _) = &js.exports[0];
    assert_eq!(
        body,
        "function peek(arg0: any): boolean {\n\
         const idx0 = addBorrowedObject(arg0);\n\
         try {\n\
         const ret = wasm_exports.peek(idx0);\n\
         return ret != 0;\n\
         } finally {\n\
         stack.pop();\n\
         }\n\
         }"
    );
    assert!(js.globals.contains("function addBorrowedObject"));
}

#[test]
fn invalid_return_types_fail_generation() {
    let m = mapped(empty_module());
    for bad in [
        HighLevelType::BorrowedStr,
        HighLevelType::JsObjectRef,
        HighLevelType::ByRef("A".to_string()),
        HighLevelType::ByMutRef("A".to_string()),
    ] {
        let mut js = Js::default();
        let func = Function { name: "f".to_string(), arguments: vec![], ret: Some(bad) };
        assert_eq!(js.generate_free_function(&func, &m), Err(GenError::InvalidReturn));
        assert!(js.exports.is_empty());
        assert!(js.globals.is_empty());
    }
}

#[test]
fn import_shim_decodes_borrowed_strings() {
    let mut js = Js::default();
    let func = Function {
        name: "log".to_string(),
        arguments: vec![HighLevelType::BorrowedStr],
        ret: None,
    };
    let (body, ts) = js.generate_import(&func).unwrap();
    assert_eq!(
        body,
        "function log_shim(ptr0: number, len0: number): void {\n\
         return _imports.log(getStringFromWasm(ptr0, len0));\n\
         }"
    );
    assert_eq!(ts, "log(arg0: string): void\n");
}

#[test]
fn import_shim_wraps_returns() {
    let mut js = Js::default();
    let func = Function {
        name: "pick".to_string(),
        arguments: vec![HighLevelType::Number, HighLevelType::Boolean],
        ret: Some(HighLevelType::JsObject),
    };
    let (body, _ts) = js.generate_import(&func).unwrap();
    assert_eq!(
        body,
        "function pick_shim(arg0: number, arg1: number): number {\n\
         return addHeapObject(_imports.pick(arg0, arg1 != 0));\n\
         }"
    );
}

#[test]
fn import_shim_rejects_unreceivable_types() {
    let mut js = Js::default();
    let bad_arg = Function {
        name: "f".to_string(),
        arguments: vec![HighLevelType::ByValue("A".to_string())],
        ret: None,
    };
    assert_eq!(js.generate_import(&bad_arg), Err(GenError::InvalidImportArgument));
    let bad_ret = Function {
        name: "g".to_string(),
        arguments: vec![],
        ret: Some(HighLevelType::OwnedStr),
    };
    assert_eq!(js.generate_import(&bad_ret), Err(GenError::InvalidImportReturn));
}

#[test]
fn wasm_level_interfaces_follow_the_module() {
    let module = ModuleView {
        imports: vec![env_fn_import("log", 0)],
        types: vec![
            FuncType { params: 2, has_ret: false },
            FuncType { params: 1, has_ret: true },
        ],
        functions: vec![1],
        exports: vec![
            ExportEntry { field: "run".to_string(), kind: ExportKind::Function(1) },
            ExportEntry { field: "memory".to_string(), kind: ExportKind::Memory },
        ],
    };
    let imports = module.typescript_wasm_imports();
    assert_eq!(imports.len(), 1);
    assert_eq!(imports[0].0, "log");
    assert_eq!(imports[0].1, "log(arg0: number, arg1: number): void;");
    let exports = module.typescript_wasm_exports();
    assert_eq!(exports.len(), 2);
    assert_eq!(exports[0].1, "run(arg0: number): number;");
    assert_eq!(exports[1].1, "memory: WebAssembly.Memory;");
}

#[test]
fn assembled_output_binds_declared_imports_and_intrinsics() {
    let module = ModuleView {
        imports: vec![env_fn_import("log", 0), env_fn_import("__wbindgen_throw", 0)],
        types: vec![FuncType { params: 2, has_ret: false }],
        functions: vec![],
        exports: vec![],
    };
    let m = mapped(module);
    let mut js = Js::default();
    let program = Program {
        free_functions: vec![],
        structs: vec![],
        imports: vec![Function {
            name: "log".to_string(),
            arguments: vec![HighLevelType::BorrowedStr],
            ret: None,
        }],
    };
    js.generate_program(&program, &m).unwrap();
    let out = js.to_string(&m, &program).unwrap();
    assert!(out.starts_with("/* tslint:disable */\n"));
    assert!(out.contains("log:function log_shim(ptr0: number, len0: number): void {"));
    assert!(out.contains(
        "__wbindgen_throw: function(ptr: number, len: number) {\nthrow new Error(getStringFromWasm(ptr, len));\n}"
    ));
    // An intrinsic the module does not import is not emitted.
    assert!(!out.contains("__wbindgen_object_clone_ref"));
    assert!(out.contains("export function instantiate(bytes: any, _imports: Imports): Promise<Exports>"));
    assert!(out.contains("instance: WebAssembly.Instance;"));
}

#[test]
fn assembled_output_passes_extras_through() {
    let module = ModuleView {
        imports: vec![env_fn_import("host_rand", 0)],
        types: vec![FuncType { params: 0, has_ret: true }],
        functions: vec![0],
        exports: vec![ExportEntry { field: "spare".to_string(), kind: ExportKind::Function(1) }],
    };
    let m = mapped(module);
    let mut js = Js::default();
    let program = Program { free_functions: vec![], structs: vec![], imports: vec![] };
    js.generate_program(&program, &m).unwrap();
    let out = js.to_string(&m, &program).unwrap();
    assert!(out.contains("export interface ExtraExports {\nspare(): number;\n}\n"));
    assert!(out.contains("extra: {\nspare:exports.spare,\n},\n"));
    assert!(out.contains("export interface ExtraImports {\nhost_rand(): number;\n}\n"));
    assert!(out.contains("host_rand:_imports.env.host_rand,\n"));
}

#[test]
fn debug_mode_emits_the_emptiness_check() {
    let m = mapped(empty_module());
    let mut js = Js::default();
    js.debug = true;
    let program = Program { free_functions: vec![], structs: vec![], imports: vec![] };
    js.generate_program(&program, &m).unwrap();
    let out = js.to_string(&m, &program).unwrap();
    assert!(out.contains("assertHeapAndStackEmpty: function(): void {"));
    assert!(out.contains("assertHeapAndStackEmpty(): void;\n"));
    assert!(out.contains("let slab: ({ obj: any, cnt: number } | number)[] = [];"));
    assert!(out.contains("let stack: any[] = [];"));
}

#[test]
fn renamed_wasm_symbols_flow_through_the_mapper() {
    let mut names = NameMapper::identity();
    assert!(names.add_export_mapping("greet".to_string(), "a".to_string()));
    assert!(names.add_export_mapping("__wbindgen_malloc".to_string(), "b".to_string()));
    assert!(names.add_export_mapping("__wbindgen_free".to_string(), "c".to_string()));
    let m = Mapped { module: empty_module(), names };
    let mut js = Js::default();
    let func = Function {
        name: "greet".to_string(),
        arguments: vec![HighLevelType::BorrowedStr],
        ret: None,
    };
    js.generate_free_function(&func, &m).unwrap();
    let (_, body, _) = &js.exports[0];
    assert!(body.contains("const ret = wasm_exports.a(ptr0, len0);"));
    assert!(body.contains("wasm_exports.c(ptr0, len0);"));
    assert!(js.globals.contains("const ptr = wasm_exports.b(len);"));
}

#[test]
fn browser_string_transfer_uses_text_encoder() {
    let mut js = Js::default();
    js.nodejs = false;
    let m = mapped(empty_module());
    let func = Function {
        name: "shout".to_string(),
        arguments: vec![HighLevelType::OwnedStr],
        ret: None,
    };
    js.generate_free_function(&func, &m).unwrap();
    assert!(js.globals.contains("new TextEncoder('utf-8').encode(arg)"));
    // An owned string is handed over: no finalizer, no try block.
    let (_, body, _) = &js.exports[0];
    assert!(!body.contains("finally"));
    assert!(body.contains("const ret = wasm_exports.shout(ptr0, len0);"));
}

#[test]
fn snippets_install_once() {
    let mut js = Js::default();
    let m = mapped(empty_module());
    let func = Function {
        name: "take".to_string(),
        arguments: vec![HighLevelType::JsObject, HighLevelType::JsObject],
        ret: Some(HighLevelType::JsObject),
    };
    js.generate_free_function(&func, &m).unwrap();
    js.generate_free_function(&func, &m).unwrap();
    assert_eq!(js.globals.matches("function addHeapObject").count(), 1);
    assert_eq!(js.globals.matches("function takeObject").count(), 1);
    assert_eq!(js.globals.matches("let slab:").count(), 1);
}

#[test]
fn imports_dropped_by_the_optimizer_are_skipped() {
    // The module imports nothing, so the declared import produces no shim.
    let m = mapped(empty_module());
    let mut js = Js::default();
    let program = Program {
        free_functions: vec![],
        structs: vec![],
        imports: vec![Function {
            name: "log".to_string(),
            arguments: vec![HighLevelType::BorrowedStr],
            ret: None,
        }],
    };
    js.generate_program(&program, &m).unwrap();
    let out = js.to_string(&m, &program).unwrap();
    assert!(!out.contains("log_shim"));
}

#[test]
fn unknown_internal_imports_surface_as_extras() {
    // An internal-prefixed import outside the well-known intrinsic set is
    // not implemented by the runtime: it must be passed through so the
    // user can supply it, or instantiation could never succeed.
    let module = ModuleView {
        imports: vec![env_fn_import("__wbindgen_abcdef", 0), env_fn_import("__wbindgen_throw", 0)],
        types: vec![FuncType { params: 2, has_ret: false }],
        functions: vec![],
        exports: vec![],
    };
    let m = mapped(module);
    let mut js = Js::default();
    let program = Program { free_functions: vec![], structs: vec![], imports: vec![] };
    js.generate_program(&program, &m).unwrap();
    let out = js.to_string(&m, &program).unwrap();
    assert!(out.contains("__wbindgen_abcdef:_imports.env.__wbindgen_abcdef,\n"));
    assert!(out.contains(
        "export interface ExtraImports {\n__wbindgen_abcdef(arg0: number, arg1: number): void;\n}\n"
    ));
    assert!(out.contains("env: ExtraImports;\n"));
    // The well-known import is bound by the runtime, not passed through.
    assert!(!out.contains("__wbindgen_throw:_imports.env"));
    assert!(out.contains("__wbindgen_throw: function(ptr: number, len: number)"));
}
