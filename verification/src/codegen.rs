//! The glue generator: given typed signatures, a module view and the
//! name map, it produces the host-language source text — trampoline
//! bodies, class definitions, import shims and the assembled output.

use vstd::prelude::*;
use vstd::string::*;
use crate::module_view::ModuleView;
use crate::name_map::NameMapper;
use crate::name_map::rename;
use crate::snippet::Snippet;
use crate::snippet::SnipState;
use crate::snippet::install_stack;
use crate::snippet::install_slab;
use crate::snippet::install_slab_next;
use crate::snippet::install_memory;
use crate::snippet::install_wasm_exports;
use crate::snippet::install_check_token;
use crate::snippet::install_assert_num;
use crate::snippet::install_assert_bool;
use crate::snippet::install_assert_class;
use crate::snippet::install_pass_string;
use crate::snippet::install_get_string;
use crate::snippet::install_add_heap;
use crate::snippet::install_borrowed_objects;
use crate::snippet::install_get_object;
use crate::snippet::install_drop_ref;
use crate::snippet::install_take_object;
use crate::text::indexed_name;
use crate::text::make_indexed_name;
use crate::ty::HighLevelType;
use crate::ty::Function;
use crate::ty::StructDecl;
use crate::ty::Program;
use crate::ty::free_export_name;
use crate::ty::struct_fn_export_name;

verus! {

/// The module view together with the rename tables: everything the
/// generator knows about the wasm side.
pub struct Mapped {
    pub module: ModuleView,
    pub names: NameMapper,
}

/// Generation fails only on a type in a position where its marshalling
/// protocol does not exist.
#[derive(Clone, Copy, PartialEq, Eq, Structural, Debug)]
pub enum GenError {
    /// A type with no owner on return (`BorrowedStr`, `JsObjectRef`,
    /// `ByRef`, `ByMutRef`) used as a return type.
    InvalidReturn,
    /// A type that cannot be received from wasm used as an import
    /// shim argument.
    InvalidImportArgument,
    /// A type that cannot be handed back to wasm used as an import
    /// shim return.
    InvalidImportReturn,
}

/// The glue generator's accumulating state.
pub struct Js {
    pub globals: String,
    pub exposed_globals: Vec<Snippet>,
    pub exports: Vec<(String, String, String)>,
    pub wasm_exports_bound: Vec<String>,
    pub classes: Vec<String>,
    pub nodejs: bool,
    pub debug: bool,
}

/// The fields a snippet request leaves alone.
pub open spec fn rest_unchanged(a: Js, b: Js) -> bool {
    &&& a.exports@ == b.exports@
    &&& a.wasm_exports_bound@ == b.wasm_exports_bound@
    &&& a.classes@ == b.classes@
    &&& a.nodejs == b.nodejs
    &&& a.debug == b.debug
}

impl Default for Js {
    /// A fresh generator: nothing emitted, both flags off.
    fn default() -> (r: Js)
        ensures
            r.globals@ == Seq::<char>::empty(),
            r.exposed_globals@ == Seq::<Snippet>::empty(),
            r.exports@ == Seq::<(String, String, String)>::empty(),
            r.wasm_exports_bound@ == Seq::<String>::empty(),
            r.classes@ == Seq::<String>::empty(),
            r.nodejs == false,
            r.debug == false,
    {
        Js {
            globals: String::new(),
            exposed_globals: Vec::new(),
            exports: Vec::new(),
            wasm_exports_bound: Vec::new(),
            classes: Vec::new(),
            nodejs: false,
            debug: false,
        }
    }
}

impl Js {
    /// The part of the state that snippet requests act on.
    pub open spec fn snip(self) -> SnipState {
        SnipState { exposed: self.exposed_globals@, globals: self.globals@ }
    }

    /// Is the snippet already installed?
    pub(crate) fn has_snippet(&self, s: Snippet) -> (r: bool)
        ensures
            r <==> self.exposed_globals@.contains(s),
    {
        let mut i: usize = 0;
        while i < self.exposed_globals.len()
            invariant
                i <= self.exposed_globals@.len(),
                forall|j: int| 0 <= j < i ==> self.exposed_globals@[j] != s,
            decreases self.exposed_globals@.len() - i,
        {
            if self.exposed_globals[i] == s {
                return true;
            }
            i += 1;
        }
        false
    }

    pub(crate) fn expose_global_stack(&mut self)
        ensures
            final(self).snip() == install_stack(old(self).snip()),
            rest_unchanged(*old(self), *final(self)),
    {
        if self.has_snippet(Snippet::Stack) {
            return ;
        }
        self.exposed_globals.push(Snippet::Stack);
        self.globals.append("let stack: any[] = [];\n");
    }

    pub(crate) fn expose_global_slab(&mut self)
        ensures
            final(self).snip() == install_slab(old(self).snip()),
            rest_unchanged(*old(self), *final(self)),
    {
        if self.has_snippet(Snippet::Slab) {
            return ;
        }
        self.exposed_globals.push(Snippet::Slab);
        self.globals.append("let slab: ({ obj: any, cnt: number } | number)[] = [];\n");
    }

    pub(crate) fn expose_global_slab_next(&mut self)
        ensures
            final(self).snip() == install_slab_next(old(self).snip()),
            rest_unchanged(*old(self), *final(self)),
    {
        if self.has_snippet(Snippet::SlabNext) {
            return ;
        }
        self.exposed_globals.push(Snippet::SlabNext);
        self.globals.append("let slab_next: number = 0;\n");
    }

    pub(crate) fn expose_global_memory(&mut self)
        ensures
            final(self).snip() == install_memory(old(self).snip()),
            rest_unchanged(*old(self), *final(self)),
    {
        if self.has_snippet(Snippet::Memory) {
            return ;
        }
        self.exposed_globals.push(Snippet::Memory);
        self.globals.append("let memory: WebAssembly.Memory;\n");
    }

    pub(crate) fn expose_wasm_exports(&mut self)
        ensures
            final(self).snip() == install_wasm_exports(old(self).snip()),
            rest_unchanged(*old(self), *final(self)),
    {
        if self.has_snippet(Snippet::WasmExports) {
            return ;
        }
        self.exposed_globals.push(Snippet::WasmExports);
        self.globals.append("let wasm_exports: WasmExports;\n");
    }

    pub(crate) fn expose_check_token(&mut self)
        ensures
            final(self).snip() == install_check_token(old(self).snip()),
            rest_unchanged(*old(self), *final(self)),
    {
        if self.has_snippet(Snippet::CheckToken) {
            return ;
        }
        self.exposed_globals.push(Snippet::CheckToken);
        self.globals.append(
            "const token = Symbol('foo');\nfunction _checkToken(sym: Symbol): void {\n    if (token !== sym)\n        throw new Error('cannot invoke `new` directly');\n}\n",
        );
    }

    pub(crate) fn expose_assert_num(&mut self)
        ensures
            final(self).snip() == install_assert_num(old(self).snip()),
            rest_unchanged(*old(self), *final(self)),
    {
        if self.has_snippet(Snippet::AssertNum) {
            return ;
        }
        self.exposed_globals.push(Snippet::AssertNum);
        self.globals.append(
            "function _assertNum(n: number): void {\n    if (typeof(n) !== 'number')\n        throw new Error('expected a number argument');\n}\n",
        );
    }

    pub(crate) fn expose_assert_bool(&mut self)
        ensures
            final(self).snip() == install_assert_bool(old(self).snip()),
            rest_unchanged(*old(self), *final(self)),
    {
        if self.has_snippet(Snippet::AssertBool) {
            return ;
        }
        self.exposed_globals.push(Snippet::AssertBool);
        self.globals.append(
            "function _assertBoolean(n: boolean) {\n    if (typeof(n) !== 'boolean')\n        throw new Error('expected a boolean argument');\n}\n",
        );
    }

    pub(crate) fn expose_assert_class(&mut self)
        ensures
            final(self).snip() == install_assert_class(old(self).snip()),
            rest_unchanged(*old(self), *final(self)),
    {
        if self.has_snippet(Snippet::AssertClass) {
            return ;
        }
        self.exposed_globals.push(Snippet::AssertClass);
        self.globals.append(
            "function _assertClass(instance: any, klass: any) {\n    if (!(instance instanceof klass))\n        throw new Error(`expected instance of ${klass.name}`);\n    return instance.ptr;\n}\n",
        );
    }

    pub(crate) fn expose_pass_string_to_wasm(&mut self, m: &Mapped)
        ensures
            final(self).snip() == install_pass_string(
                old(self).snip(),
                old(self).nodejs,
                rename(m.names.export_pairs@, "__wbindgen_malloc"@),
            ),
            rest_unchanged(*old(self), *final(self)),
    {
        if self.has_snippet(Snippet::PassStringToWasm) {
            return ;
        }
        self.expose_wasm_exports();
        self.expose_global_memory();
        self.exposed_globals.push(Snippet::PassStringToWasm);
        let malloc = m.names.export_name("__wbindgen_malloc");
        if self.nodejs {
            self.globals.append(
                "function passStringToWasm(arg: string): [number, number] {\n    if (typeof(arg) !== 'string')\n        throw new Error('expected a string argument');\n    const buf = Buffer.from(arg);\n    const len = buf.length;\n    const ptr = wasm_exports.",
            );
            self.globals.append(malloc.as_str());
            self.globals.append(
                "(len);\n    buf.copy(Buffer.from(memory.buffer), ptr);\n    return [ptr, len];\n}\n",
            );
        } else {
            self.globals.append(
                "function passStringToWasm(arg: string): [number, number] {\n    if (typeof(arg) !== 'string')\n        throw new Error('expected a string argument');\n    const buf = new TextEncoder('utf-8').encode(arg);\n    const len = buf.length;\n    const ptr = wasm_exports.",
            );
            self.globals.append(malloc.as_str());
            self.globals.append(
                "(len);\n    let array = new Uint8Array(memory.buffer);\n    array.set(buf, ptr);\n    return [ptr, len];\n}\n",
            );
        }
        proof {
            assert(final(self).snip().globals =~= install_pass_string(
                old(self).snip(),
                old(self).nodejs,
                rename(m.names.export_pairs@, "__wbindgen_malloc"@),
            ).globals);
        }
    }

    pub(crate) fn expose_get_string_from_wasm(&mut self)
        ensures
            final(self).snip() == install_get_string(old(self).snip(), old(self).nodejs),
            rest_unchanged(*old(self), *final(self)),
    {
        if self.has_snippet(Snippet::GetStringFromWasm) {
            return ;
        }
        self.expose_global_memory();
        self.exposed_globals.push(Snippet::GetStringFromWasm);
        if self.nodejs {
            self.globals.append(
                "function getStringFromWasm(ptr: number, len: number): string {\n    const buf = Buffer.from(memory.buffer).slice(ptr, ptr + len);\n    const ret = buf.toString();\n    return ret;\n}\n",
            );
        } else {
            self.globals.append(
                "function getStringFromWasm(ptr: number, len: number): string {\n    const mem = new Uint8Array(memory.buffer);\n    const slice = mem.slice(ptr, ptr + len);\n    const ret = new TextDecoder('utf-8').decode(slice);\n    return ret;\n}\n",
            );
        }
    }

    pub(crate) fn expose_add_heap_object(&mut self)
        ensures
            final(self).snip() == install_add_heap(old(self).snip(), old(self).debug),
            rest_unchanged(*old(self), *final(self)),
    {
        if self.has_snippet(Snippet::AddHeapObject) {
            return ;
        }
        self.expose_global_slab();
        self.expose_global_slab_next();
        self.exposed_globals.push(Snippet::AddHeapObject);
        if self.debug {
            self.globals.append(
                "function addHeapObject(obj: any): number {\n    if (slab_next == slab.length)\n        slab.push(slab.length + 1);\n    const idx = slab_next;\n    const next = slab[idx];\n    if (typeof(next) !== 'number')\n        throw new Error('corrupt slab');\n    slab_next = next;\n    slab[idx] = { obj, cnt: 1 };\n    return idx << 1;\n}\n",
            );
        } else {
            self.globals.append(
                "function addHeapObject(obj: any): number {\n    if (slab_next == slab.length)\n        slab.push(slab.length + 1);\n    const idx = slab_next;\n    const next = slab[idx];\n    slab_next = next as number;\n    slab[idx] = { obj, cnt: 1 };\n    return idx << 1;\n}\n",
            );
        }
    }

    pub(crate) fn expose_borrowed_objects(&mut self)
        ensures
            final(self).snip() == install_borrowed_objects(old(self).snip()),
            rest_unchanged(*old(self), *final(self)),
    {
        if self.has_snippet(Snippet::BorrowedObjects) {
            return ;
        }
        self.expose_global_stack();
        self.exposed_globals.push(Snippet::BorrowedObjects);
        self.globals.append(
            "function addBorrowedObject(obj: any): number {\n    stack.push(obj);\n    return ((stack.length - 1) << 1) | 1;\n}\n",
        );
    }

    pub(crate) fn expose_get_object(&mut self)
        ensures
            final(self).snip() == install_get_object(old(self).snip(), old(self).debug),
            rest_unchanged(*old(self), *final(self)),
    {
        if self.has_snippet(Snippet::GetObject) {
            return ;
        }
        self.expose_global_stack();
        self.expose_global_slab();
        self.exposed_globals.push(Snippet::GetObject);
        if self.debug {
            self.globals.append(
                "function getObject(idx: number): any {\n    if ((idx & 1) === 1) {\n        return stack[idx >> 1];\n    } else {\n        const val = slab[idx >> 1];\n        if (typeof(val) === 'number')\n            throw new Error('corrupt slab');\n        return val.obj;\n    }\n}\n",
            );
        } else {
            self.globals.append(
                "function getObject(idx: number): any {\n    if ((idx & 1) === 1) {\n        return stack[idx >> 1];\n    } else {\n        const val = slab[idx >> 1];\n        return (val as {obj:any}).obj;\n    }\n}\n",
            );
        }
    }

    pub(crate) fn expose_drop_ref(&mut self)
        ensures
            final(self).snip() == install_drop_ref(old(self).snip(), old(self).debug),
            rest_unchanged(*old(self), *final(self)),
    {
        if self.has_snippet(Snippet::DropRef) {
            return ;
        }
        self.expose_global_slab();
        self.expose_global_slab_next();
        self.exposed_globals.push(Snippet::DropRef);
        if self.debug {
            self.globals.append(
                "function dropRef(idx: number): void {\n    if ((idx & 1) === 1)\n        throw new Error('cannot drop ref of stack objects');\n    let obj = slab[idx >> 1];\n    if (typeof(obj) === 'number')\n        throw new Error('corrupt slab');\n    obj.cnt -= 1;\n    if (obj.cnt > 0)\n        return;\n    slab[idx >> 1] = slab_next;\n    slab_next = idx >> 1;\n}\n",
            );
        } else {
            self.globals.append(
                "function dropRef(idx: number): void {\n    let obj = slab[idx >> 1];\n    (obj as {cnt:number}).cnt -= 1;\n    if ((obj as {cnt:number}).cnt > 0)\n        return;\n    slab[idx >> 1] = slab_next;\n    slab_next = idx >> 1;\n}\n",
            );
        }
    }

    pub(crate) fn expose_take_object(&mut self)
        ensures
            final(self).snip() == install_take_object(old(self).snip(), old(self).debug),
            rest_unchanged(*old(self), *final(self)),
    {
        if self.has_snippet(Snippet::TakeObject) {
            return ;
        }
        self.expose_get_object();
        self.expose_drop_ref();
        self.exposed_globals.push(Snippet::TakeObject);
        self.globals.append(
            "function takeObject(idx: number): any {\n    const ret = getObject(idx);\n    dropRef(idx);\n    return ret;\n}\n",
        );
    }

    /// Does the wasm module import the (renamed) form of `name`?
    pub fn wasm_import_needed(&self, name: &str, m: &Mapped) -> (r: bool)
        ensures
            r == m.module.has_env_import(rename(m.names.import_pairs@, name@)),
    {
        let mapped = m.names.import_name(name);
        m.module.has_import(mapped.as_str())
    }
}

/// The generated `arg{i}` local.
pub open spec fn arg_n(i: nat) -> Seq<char> {
    indexed_name("arg"@, i)
}

/// The generated `ptr{i}` local.
pub open spec fn ptr_n(i: nat) -> Seq<char> {
    indexed_name("ptr"@, i)
}

/// The generated `len{i}` local.
pub open spec fn len_n(i: nat) -> Seq<char> {
    indexed_name("len"@, i)
}

/// The generated `idx{i}` local.
pub open spec fn idx_n(i: nat) -> Seq<char> {
    indexed_name("idx"@, i)
}

/// Host-language type annotation of one argument.
pub open spec fn ts_arg_type(ty: HighLevelType) -> Seq<char> {
    match ty {
        HighLevelType::Number => "number"@,
        HighLevelType::Boolean => "boolean"@,
        HighLevelType::BorrowedStr => "string"@,
        HighLevelType::OwnedStr => "string"@,
        HighLevelType::JsObject => "any"@,
        HighLevelType::JsObjectRef => "any"@,
        HighLevelType::ByRef(c) => c@,
        HighLevelType::ByMutRef(c) => c@,
        HighLevelType::ByValue(c) => c@,
    }
}

/// Declaration of argument `i` in the generated parameter list.
pub open spec fn decl_piece(ty: HighLevelType, i: nat) -> Seq<char> {
    (if i > 0 {
        ", "@
    } else {
        Seq::<char>::empty()
    }) + arg_n(i) + ": "@ + ts_arg_type(ty)
}

/// Parameter list of the first `n` arguments.
pub open spec fn decl_pref(args: Seq<HighLevelType>, n: int) -> Seq<char>
    decreases n,
{
    if n <= 0 {
        Seq::empty()
    } else {
        decl_pref(args, n - 1) + decl_piece(args[n - 1], (n - 1) as nat)
    }
}

/// What argument `i` contributes to the wasm-side argument list. Every
/// argument contributes at least one wasm value, so a separator is due
/// exactly when a `this` pointer or an earlier argument came first.
pub open spec fn passed_piece(ty: HighLevelType, i: nat, is_method: bool) -> Seq<char> {
    let lead: Seq<char> = if is_method || i > 0 {
        ", "@
    } else {
        Seq::empty()
    };
    match ty {
        HighLevelType::Number => lead + arg_n(i),
        HighLevelType::Boolean => lead + arg_n(i) + " ? 1 : 0"@,
        HighLevelType::BorrowedStr => lead + ptr_n(i) + ", "@ + len_n(i),
        HighLevelType::OwnedStr => lead + ptr_n(i) + ", "@ + len_n(i),
        HighLevelType::JsObject => lead + idx_n(i),
        HighLevelType::JsObjectRef => lead + idx_n(i),
        HighLevelType::ByRef(_) => lead + arg_n(i) + ".ptr"@,
        HighLevelType::ByMutRef(_) => lead + arg_n(i) + ".ptr"@,
        HighLevelType::ByValue(_) => lead + ptr_n(i),
    }
}

/// Wasm-side argument list of the first `n` arguments.
pub open spec fn passed_pref(args: Seq<HighLevelType>, n: int, is_method: bool) -> Seq<char>
    decreases n,
{
    if n <= 0 {
        Seq::empty()
    } else {
        passed_pref(args, n - 1, is_method) + passed_piece(args[n - 1], (n - 1) as nat, is_method)
    }
}

/// Marshalling statements of argument `i`.
pub open spec fn conv_piece(ty: HighLevelType, i: nat, debug: bool) -> Seq<char> {
    match ty {
        HighLevelType::Number => if debug {
            "_assertNum("@ + arg_n(i) + ");\n"@
        } else {
            Seq::empty()
        },
        HighLevelType::Boolean => if debug {
            "_assertBoolean("@ + arg_n(i) + ");\n"@
        } else {
            Seq::empty()
        },
        HighLevelType::BorrowedStr => "const ["@ + ptr_n(i) + ", "@ + len_n(i)
            + "] = passStringToWasm("@ + arg_n(i) + ");\n"@,
        HighLevelType::OwnedStr => "const ["@ + ptr_n(i) + ", "@ + len_n(i)
            + "] = passStringToWasm("@ + arg_n(i) + ");\n"@,
        HighLevelType::JsObject => "const "@ + idx_n(i) + " = addHeapObject("@ + arg_n(i)
            + ");\n"@,
        HighLevelType::JsObjectRef => "const "@ + idx_n(i) + " = addBorrowedObject("@ + arg_n(i)
            + ");\n"@,
        HighLevelType::ByRef(c) => if debug {
            "_assertClass("@ + arg_n(i) + ", "@ + c@ + ");\n"@
        } else {
            Seq::empty()
        },
        HighLevelType::ByMutRef(c) => if debug {
            "_assertClass("@ + arg_n(i) + ", "@ + c@ + ");\n"@
        } else {
            Seq::empty()
        },
        HighLevelType::ByValue(c) => (if debug {
            "_assertClass("@ + arg_n(i) + ", "@ + c@ + ");\n"@
        } else {
            Seq::<char>::empty()
        }) + "const "@ + ptr_n(i) + " = "@ + arg_n(i) + ".ptr;\n"@ + arg_n(i) + ".ptr = 0;\n"@,
    }
}

/// Marshalling statements of the first `n` arguments.
pub open spec fn conv_pref(args: Seq<HighLevelType>, n: int, debug: bool) -> Seq<char>
    decreases n,
{
    if n <= 0 {
        Seq::empty()
    } else {
        conv_pref(args, n - 1, debug) + conv_piece(args[n - 1], (n - 1) as nat, debug)
    }
}

/// Finalizer statement of argument `i`: borrowed strings free their
/// linear-memory allocation, borrowed objects pop the stack.
pub open spec fn dtor_piece(ty: HighLevelType, i: nat, free_name: Seq<char>) -> Seq<char> {
    match ty {
        HighLevelType::BorrowedStr => "wasm_exports."@ + free_name + "("@ + ptr_n(i) + ", "@
            + len_n(i) + ");\n"@,
        HighLevelType::JsObjectRef => "stack.pop();\n"@,
        _ => Seq::empty(),
    }
}

/// Finalizer block of the first `n` arguments.
pub open spec fn dtor_pref(args: Seq<HighLevelType>, n: int, free_name: Seq<char>) -> Seq<char>
    decreases n,
{
    if n <= 0 {
        Seq::empty()
    } else {
        dtor_pref(args, n - 1, free_name) + dtor_piece(args[n - 1], (n - 1) as nat, free_name)
    }
}

/// Finalizer statements of the arguments in `[lo, n)`.
pub open spec fn dtor_range(args: Seq<HighLevelType>, lo: int, n: int, free_name: Seq<char>) -> Seq<char>
    decreases n - lo,
{
    if n <= lo {
        Seq::empty()
    } else {
        dtor_range(args, lo, n - 1, free_name) + dtor_piece(args[n - 1], (n - 1) as nat, free_name)
    }
}

/// The finalizer block splits at any point into a prefix and a range.
proof fn lemma_dtor_decompose(args: Seq<HighLevelType>, lo: int, n: int, free_name: Seq<char>)
    requires
        0 <= lo <= n,
    ensures
        dtor_pref(args, n, free_name) == dtor_pref(args, lo, free_name) + dtor_range(
            args,
            lo,
            n,
            free_name,
        ),
    decreases n - lo,
{
    if n <= lo {
        assert(dtor_pref(args, lo, free_name) + dtor_range(args, lo, n, free_name) =~= dtor_pref(
            args,
            n,
            free_name,
        ));
    } else {
        lemma_dtor_decompose(args, lo, n - 1, free_name);
        assert(dtor_pref(args, lo, free_name) + dtor_range(args, lo, n - 1, free_name)
            + dtor_piece(args[n - 1], (n - 1) as nat, free_name) =~= dtor_pref(args, lo, free_name)
            + dtor_range(args, lo, n, free_name));
    }
}

/// Finalizer discipline, for every signature: each borrowed-string and
/// borrowed-object argument contributes its release statement — the
/// linear-memory free, or the stack pop — to the finalizer block, and
/// the block is then nonempty, so the emitted call is wrapped in
/// try/finally and the release runs on every exit path, normal or
/// thrown.
pub proof fn lemma_finalizers_always_run(args: Seq<HighLevelType>, i: int, free_name: Seq<char>)
    requires
        0 <= i < args.len(),
        args[i] is BorrowedStr || args[i] is JsObjectRef,
    ensures
        dtor_pref(args, args.len() as int, free_name) == dtor_pref(args, i, free_name)
            + dtor_piece(args[i], i as nat, free_name) + dtor_range(
            args,
            i + 1,
            args.len() as int,
            free_name,
        ),
        dtor_pref(args, args.len() as int, free_name).len() > 0,
{
    lemma_dtor_decompose(args, i + 1, args.len() as int, free_name);
    reveal_strlit("wasm_exports.");
    reveal_strlit("stack.pop();\n");
    assert(dtor_piece(args[i], i as nat, free_name).len() > 0);
}

/// Marshalling statements of the arguments in `[lo, n)`.
pub open spec fn conv_range(args: Seq<HighLevelType>, lo: int, n: int, debug: bool) -> Seq<char>
    decreases n - lo,
{
    if n <= lo {
        Seq::empty()
    } else {
        conv_range(args, lo, n - 1, debug) + conv_piece(args[n - 1], (n - 1) as nat, debug)
    }
}

/// Wasm-side arguments of the arguments in `[lo, n)`.
pub open spec fn passed_range(args: Seq<HighLevelType>, lo: int, n: int, is_method: bool) -> Seq<char>
    decreases n - lo,
{
    if n <= lo {
        Seq::empty()
    } else {
        passed_range(args, lo, n - 1, is_method) + passed_piece(
            args[n - 1],
            (n - 1) as nat,
            is_method,
        )
    }
}

/// The conversion block splits at any point into a prefix and a range.
proof fn lemma_conv_decompose(args: Seq<HighLevelType>, lo: int, n: int, debug: bool)
    requires
        0 <= lo <= n,
    ensures
        conv_pref(args, n, debug) == conv_pref(args, lo, debug) + conv_range(args, lo, n, debug),
    decreases n - lo,
{
    if n <= lo {
        assert(conv_pref(args, lo, debug) + conv_range(args, lo, n, debug) =~= conv_pref(
            args,
            n,
            debug,
        ));
    } else {
        lemma_conv_decompose(args, lo, n - 1, debug);
        assert(conv_pref(args, lo, debug) + conv_range(args, lo, n - 1, debug) + conv_piece(
            args[n - 1],
            (n - 1) as nat,
            debug,
        ) =~= conv_pref(args, lo, debug) + conv_range(args, lo, n, debug));
    }
}

/// The wasm-side argument list splits at any point into a prefix and a
/// range.
proof fn lemma_passed_decompose(args: Seq<HighLevelType>, lo: int, n: int, is_method: bool)
    requires
        0 <= lo <= n,
    ensures
        passed_pref(args, n, is_method) == passed_pref(args, lo, is_method) + passed_range(
            args,
            lo,
            n,
            is_method,
        ),
    decreases n - lo,
{
    if n <= lo {
        assert(passed_pref(args, lo, is_method) + passed_range(args, lo, n, is_method)
            =~= passed_pref(args, n, is_method));
    } else {
        lemma_passed_decompose(args, lo, n - 1, is_method);
        assert(passed_pref(args, lo, is_method) + passed_range(args, lo, n - 1, is_method)
            + passed_piece(args[n - 1], (n - 1) as nat, is_method) =~= passed_pref(
            args,
            lo,
            is_method,
        ) + passed_range(args, lo, n, is_method));
    }
}

/// Ownership transfer at the glue level, for every signature: a ByValue
/// argument's marshalling saves the wrapper's pointer and nulls the
/// wrapper before the call, and what reaches the wasm-side argument list
/// for that slot is exactly the saved pointer — so wasm receives the
/// original pointer once, and the wrapper can never hand it out again.
pub proof fn lemma_by_value_transferred_once(
    args: Seq<HighLevelType>,
    i: int,
    debug: bool,
    is_method: bool,
)
    requires
        0 <= i < args.len(),
        args[i] is ByValue,
    ensures
        conv_pref(args, args.len() as int, debug) == conv_pref(args, i, debug) + conv_piece(
            args[i],
            i as nat,
            debug,
        ) + conv_range(args, i + 1, args.len() as int, debug),
        conv_piece(args[i], i as nat, debug) == (if debug {
            "_assertClass("@ + arg_n(i as nat) + ", "@ + args[i]->ByValue_0@ + ");\n"@
        } else {
            Seq::<char>::empty()
        }) + "const "@ + ptr_n(i as nat) + " = "@ + arg_n(i as nat) + ".ptr;\n"@ + arg_n(i as nat)
            + ".ptr = 0;\n"@,
        passed_pref(args, args.len() as int, is_method) == passed_pref(args, i, is_method)
            + passed_piece(args[i], i as nat, is_method) + passed_range(
            args,
            i + 1,
            args.len() as int,
            is_method,
        ),
        passed_piece(args[i], i as nat, is_method) == (if is_method || i > 0 {
            ", "@
        } else {
            Seq::<char>::empty()
        }) + ptr_n(i as nat),
{
    lemma_conv_decompose(args, i + 1, args.len() as int, debug);
    lemma_passed_decompose(args, i + 1, args.len() as int, is_method);
}

/// Snippets argument `i` requests.
pub open spec fn install_arg(
    st: SnipState,
    ty: HighLevelType,
    debug: bool,
    nodejs: bool,
    malloc: Seq<char>,
) -> SnipState {
    match ty {
        HighLevelType::Number => if debug {
            install_assert_num(st)
        } else {
            st
        },
        HighLevelType::Boolean => if debug {
            install_assert_bool(st)
        } else {
            st
        },
        HighLevelType::BorrowedStr => install_wasm_exports(install_pass_string(st, nodejs, malloc)),
        HighLevelType::OwnedStr => install_pass_string(st, nodejs, malloc),
        HighLevelType::JsObject => install_add_heap(st, debug),
        HighLevelType::JsObjectRef => install_borrowed_objects(st),
        HighLevelType::ByRef(_) => if debug {
            install_assert_class(st)
        } else {
            st
        },
        HighLevelType::ByMutRef(_) => if debug {
            install_assert_class(st)
        } else {
            st
        },
        HighLevelType::ByValue(_) => if debug {
            install_assert_class(st)
        } else {
            st
        },
    }
}

/// Snippets the first `n` arguments request, in order.
pub open spec fn install_args(
    st: SnipState,
    args: Seq<HighLevelType>,
    n: int,
    debug: bool,
    nodejs: bool,
    malloc: Seq<char>,
) -> SnipState
    decreases n,
{
    if n <= 0 {
        st
    } else {
        install_arg(install_args(st, args, n - 1, debug, nodejs, malloc), args[n - 1], debug,
            nodejs, malloc)
    }
}

/// Is this type allowed as a return type? `BorrowedStr`, `JsObjectRef`,
/// `ByRef` and `ByMutRef` have no owner on return.
pub open spec fn ret_valid(ret: Option<HighLevelType>) -> bool {
    match ret {
        None => true,
        Some(t) => match t {
            HighLevelType::BorrowedStr => false,
            HighLevelType::JsObjectRef => false,
            HighLevelType::ByRef(_) => false,
            HighLevelType::ByMutRef(_) => false,
            _ => true,
        },
    }
}

/// Host-language type annotation of the result (for valid returns).
pub open spec fn ret_ts_type(ret: Option<HighLevelType>) -> Seq<char> {
    match ret {
        None => "void"@,
        Some(t) => match t {
            HighLevelType::Number => "number"@,
            HighLevelType::Boolean => "boolean"@,
            HighLevelType::JsObject => "any"@,
            HighLevelType::OwnedStr => "string"@,
            HighLevelType::ByValue(c) => c@,
            _ => Seq::empty(),
        },
    }
}

/// Statements that turn the raw wasm result `ret` into the host value.
pub open spec fn convert_ret_text(
    ret: Option<HighLevelType>,
    debug: bool,
    ep: Seq<(String, String)>,
) -> Seq<char> {
    match ret {
        None => "return ret;\n"@,
        Some(t) => match t {
            HighLevelType::Number => "return ret;\n"@,
            HighLevelType::Boolean => "return ret != 0;\n"@,
            HighLevelType::JsObject => "return takeObject(ret);\n"@,
            HighLevelType::ByValue(c) => if debug {
                "return new "@ + c@ + "(ret, token);\n"@
            } else {
                "return new "@ + c@ + "(ret);\n"@
            },
            HighLevelType::OwnedStr => "const ptr = wasm_exports."@ + rename(
                ep,
                "__wbindgen_boxed_str_ptr"@,
            ) + "(ret);\nconst len = wasm_exports."@ + rename(ep, "__wbindgen_boxed_str_len"@)
                + "(ret);\nconst realRet = getStringFromWasm(ptr, len);\nwasm_exports."@ + rename(
                ep,
                "__wbindgen_boxed_str_free"@,
            ) + "(ret);\nreturn realRet;\n"@,
            _ => Seq::empty(),
        },
    }
}

/// Snippets the return conversion requests.
pub open spec fn install_ret(
    st: SnipState,
    ret: Option<HighLevelType>,
    debug: bool,
    nodejs: bool,
) -> SnipState {
    match ret {
        Some(HighLevelType::JsObject) => install_take_object(st, debug),
        Some(HighLevelType::OwnedStr) => install_wasm_exports(install_get_string(st, nodejs)),
        _ => st,
    }
}

/// All snippets one generated function requests: its arguments' in
/// order, then the return conversion's, then the exports bag itself.
pub open spec fn install_fn(
    st: SnipState,
    args: Seq<HighLevelType>,
    ret: Option<HighLevelType>,
    debug: bool,
    nodejs: bool,
    ep: Seq<(String, String)>,
) -> SnipState {
    install_wasm_exports(
        install_ret(
            install_args(st, args, args.len() as int, debug, nodejs, rename(ep, "__wbindgen_malloc"@)),
            ret,
            debug,
            nodejs,
        ),
    )
}

/// The typed signature core `name(decls): ret`.
pub open spec fn sig_core(
    name: Seq<char>,
    args: Seq<HighLevelType>,
    ret: Option<HighLevelType>,
) -> Seq<char> {
    name + "("@ + decl_pref(args, args.len() as int) + "): "@ + ret_ts_type(ret)
}

/// The host-language type annotation of one generated function.
pub open spec fn ts_fn_text(
    name: Seq<char>,
    args: Seq<HighLevelType>,
    ret: Option<HighLevelType>,
) -> Seq<char> {
    sig_core(name, args, ret) + ";"@
}

/// The full wasm-side argument list, `this.ptr` first for methods.
pub open spec fn full_passed(args: Seq<HighLevelType>, is_method: bool) -> Seq<char> {
    (if is_method {
        "this.ptr"@
    } else {
        Seq::<char>::empty()
    }) + passed_pref(args, args.len() as int, is_method)
}

/// The call statement: plain when no finalizer is due, else wrapped in
/// try/finally so the finalizers run on every exit path.
pub open spec fn call_text(
    wasmx: Seq<char>,
    passed: Seq<char>,
    conv_ret: Seq<char>,
    dtors: Seq<char>,
) -> Seq<char> {
    if dtors.len() == 0 {
        "const ret = wasm_exports."@ + wasmx + "("@ + passed + ");\n"@ + conv_ret
    } else {
        "try {\nconst ret = wasm_exports."@ + wasmx + "("@ + passed + ");\n"@ + conv_ret
            + "} finally {\n"@ + dtors + "}\n"@
    }
}

/// The complete generated body of one function.
pub open spec fn js_fn_text(
    prefix: Seq<char>,
    name: Seq<char>,
    wasm_name: Seq<char>,
    is_method: bool,
    args: Seq<HighLevelType>,
    ret: Option<HighLevelType>,
    debug: bool,
    ep: Seq<(String, String)>,
) -> Seq<char> {
    prefix + " "@ + sig_core(name, args, ret) + " {\n"@ + conv_pref(args, args.len() as int, debug)
        + call_text(
        rename(ep, wasm_name),
        full_passed(args, is_method),
        convert_ret_text(ret, debug, ep),
        dtor_pref(args, args.len() as int, rename(ep, "__wbindgen_free"@)),
    ) + "}"@
}

/// The value behind an optional reference.
pub open spec fn opt_ty(o: Option<&HighLevelType>) -> Option<HighLevelType> {
    match o {
        Some(t) => Some(*t),
        None => None,
    }
}

/// `b` is `a` with one more name appended, reading `s`.
pub open spec fn pushed_name(a: Seq<String>, b: Seq<String>, s: Seq<char>) -> bool {
    names_view(b) == names_view(a).push(s)
}

/// Append the host-language annotation of one argument type.
fn append_ts_type(out: &mut String, ty: &HighLevelType)
    ensures
        final(out)@ == old(out)@ + ts_arg_type(*ty),
{
    match ty {
        HighLevelType::Number => out.append("number"),
        HighLevelType::Boolean => out.append("boolean"),
        HighLevelType::BorrowedStr => out.append("string"),
        HighLevelType::OwnedStr => out.append("string"),
        HighLevelType::JsObject => out.append("any"),
        HighLevelType::JsObjectRef => out.append("any"),
        HighLevelType::ByRef(c) => out.append(c.as_str()),
        HighLevelType::ByMutRef(c) => out.append(c.as_str()),
        HighLevelType::ByValue(c) => out.append(c.as_str()),
    }
}

impl Js {
    /// Marshalling of one `Number` argument.
    fn arg_number(&mut self, convs: &mut String, passed: &mut String, i: u32, lead: bool)
        ensures
            final(self).snip() == install_arg(
                old(self).snip(),
                HighLevelType::Number,
                old(self).debug,
                old(self).nodejs,
                Seq::<char>::empty(),
            ),
            rest_unchanged(*old(self), *final(self)),
            final(convs)@ == old(convs)@ + conv_piece(
                HighLevelType::Number,
                i as nat,
                old(self).debug,
            ),
            final(passed)@ == old(passed)@ + (if lead {
                ", "@
            } else {
                Seq::<char>::empty()
            }) + arg_n(i as nat),
    {
        let arg_name = make_indexed_name("arg", i);
        if self.debug {
            self.expose_assert_num();
            convs.append("_assertNum(");
            convs.append(arg_name.as_str());
            convs.append(");\n");
        }
        if lead {
            passed.append(", ");
        }
        passed.append(arg_name.as_str());
        proof {
            assert(convs@ =~= old(convs)@ + conv_piece(
                HighLevelType::Number,
                i as nat,
                old(self).debug,
            ));
            assert(passed@ =~= old(passed)@ + (if lead {
                ", "@
            } else {
                Seq::<char>::empty()
            }) + arg_n(i as nat));
        }
    }

    /// Marshalling of one `Boolean` argument.
    fn arg_boolean(&mut self, convs: &mut String, passed: &mut String, i: u32, lead: bool)
        ensures
            final(self).snip() == install_arg(
                old(self).snip(),
                HighLevelType::Boolean,
                old(self).debug,
                old(self).nodejs,
                Seq::<char>::empty(),
            ),
            rest_unchanged(*old(self), *final(self)),
            final(convs)@ == old(convs)@ + conv_piece(
                HighLevelType::Boolean,
                i as nat,
                old(self).debug,
            ),
            final(passed)@ == old(passed)@ + (if lead {
                ", "@
            } else {
                Seq::<char>::empty()
            }) + arg_n(i as nat) + " ? 1 : 0"@,
    {
        let arg_name = make_indexed_name("arg", i);
        if self.debug {
            self.expose_assert_bool();
            convs.append("_assertBoolean(");
            convs.append(arg_name.as_str());
            convs.append(");\n");
        }
        if lead {
            passed.append(", ");
        }
        passed.append(arg_name.as_str());
        passed.append(" ? 1 : 0");
        proof {
            assert(convs@ =~= old(convs)@ + conv_piece(
                HighLevelType::Boolean,
                i as nat,
                old(self).debug,
            ));
            assert(passed@ =~= old(passed)@ + (if lead {
                ", "@
            } else {
                Seq::<char>::empty()
            }) + arg_n(i as nat) + " ? 1 : 0"@);
        }
    }

    /// Marshalling of one string argument; a borrowed string also emits
    /// the finalizer that frees its linear-memory allocation.
    fn arg_string(
        &mut self,
        convs: &mut String,
        passed: &mut String,
        dtors: &mut String,
        i: u32,
        lead: bool,
        borrowed: bool,
        m: &Mapped,
    )
        ensures
            final(self).snip() == install_arg(
                old(self).snip(),
                if borrowed {
                    HighLevelType::BorrowedStr
                } else {
                    HighLevelType::OwnedStr
                },
                old(self).debug,
                old(self).nodejs,
                rename(m.names.export_pairs@, "__wbindgen_malloc"@),
            ),
            rest_unchanged(*old(self), *final(self)),
            final(convs)@ == old(convs)@ + conv_piece(
                HighLevelType::BorrowedStr,
                i as nat,
                old(self).debug,
            ),
            final(passed)@ == old(passed)@ + (if lead {
                ", "@
            } else {
                Seq::<char>::empty()
            }) + ptr_n(i as nat) + ", "@ + len_n(i as nat),
            final(dtors)@ == old(dtors)@ + (if borrowed {
                dtor_piece(
                    HighLevelType::BorrowedStr,
                    i as nat,
                    rename(m.names.export_pairs@, "__wbindgen_free"@),
                )
            } else {
                Seq::<char>::empty()
            }),
    {
        let arg_name = make_indexed_name("arg", i);
        let ptr_name = make_indexed_name("ptr", i);
        let len_name = make_indexed_name("len", i);
        self.expose_pass_string_to_wasm(m);
        convs.append("const [");
        convs.append(ptr_name.as_str());
        convs.append(", ");
        convs.append(len_name.as_str());
        convs.append("] = passStringToWasm(");
        convs.append(arg_name.as_str());
        convs.append(");\n");
        if lead {
            passed.append(", ");
        }
        passed.append(ptr_name.as_str());
        passed.append(", ");
        passed.append(len_name.as_str());
        if borrowed {
            self.expose_wasm_exports();
            let free_name = m.names.export_name("__wbindgen_free");
            dtors.append("wasm_exports.");
            dtors.append(free_name.as_str());
            dtors.append("(");
            dtors.append(ptr_name.as_str());
            dtors.append(", ");
            dtors.append(len_name.as_str());
            dtors.append(");\n");
            proof {
                assert(dtors@ =~= old(dtors)@ + dtor_piece(
                    HighLevelType::BorrowedStr,
                    i as nat,
                    rename(m.names.export_pairs@, "__wbindgen_free"@),
                ));
            }
        }
        proof {
            assert(convs@ =~= old(convs)@ + conv_piece(
                HighLevelType::BorrowedStr,
                i as nat,
                old(self).debug,
            ));
            assert(passed@ =~= old(passed)@ + (if lead {
                ", "@
            } else {
                Seq::<char>::empty()
            }) + ptr_n(i as nat) + ", "@ + len_n(i as nat));
        }
    }

    /// Marshalling of one borrowed class instance argument.
    fn arg_by_ref(&mut self, convs: &mut String, passed: &mut String, i: u32, lead: bool, c: &str)
        ensures
            final(self).snip() == (if old(self).debug {
                install_assert_class(old(self).snip())
            } else {
                old(self).snip()
            }),
            rest_unchanged(*old(self), *final(self)),
            final(convs)@ == old(convs)@ + (if old(self).debug {
                "_assertClass("@ + arg_n(i as nat) + ", "@ + c@ + ");\n"@
            } else {
                Seq::<char>::empty()
            }),
            final(passed)@ == old(passed)@ + (if lead {
                ", "@
            } else {
                Seq::<char>::empty()
            }) + arg_n(i as nat) + ".ptr"@,
    {
        let arg_name = make_indexed_name("arg", i);
        if self.debug {
            self.expose_assert_class();
            convs.append("_assertClass(");
            convs.append(arg_name.as_str());
            convs.append(", ");
            convs.append(c);
            convs.append(");\n");
        }
        if lead {
            passed.append(", ");
        }
        passed.append(arg_name.as_str());
        passed.append(".ptr");
        proof {
            assert(convs@ =~= old(convs)@ + (if old(self).debug {
                "_assertClass("@ + arg_n(i as nat) + ", "@ + c@ + ");\n"@
            } else {
                Seq::<char>::empty()
            }));
            assert(passed@ =~= old(passed)@ + (if lead {
                ", "@
            } else {
                Seq::<char>::empty()
            }) + arg_n(i as nat) + ".ptr"@);
        }
    }

    /// Marshalling of one `ByValue` class instance argument: read the
    /// pointer, null the wrapper, pass the saved pointer.
    fn arg_by_value(&mut self, convs: &mut String, passed: &mut String, i: u32, lead: bool, c: &str)
        ensures
            final(self).snip() == (if old(self).debug {
                install_assert_class(old(self).snip())
            } else {
                old(self).snip()
            }),
            rest_unchanged(*old(self), *final(self)),
            final(convs)@ == old(convs)@ + (if old(self).debug {
                "_assertClass("@ + arg_n(i as nat) + ", "@ + c@ + ");\n"@
            } else {
                Seq::<char>::empty()
            }) + "const "@ + ptr_n(i as nat) + " = "@ + arg_n(i as nat) + ".ptr;\n"@ + arg_n(
                i as nat,
            ) + ".ptr = 0;\n"@,
            final(passed)@ == old(passed)@ + (if lead {
                ", "@
            } else {
                Seq::<char>::empty()
            }) + ptr_n(i as nat),
    {
        let arg_name = make_indexed_name("arg", i);
        let ptr_name = make_indexed_name("ptr", i);
        if self.debug {
            self.expose_assert_class();
            convs.append("_assertClass(");
            convs.append(arg_name.as_str());
            convs.append(", ");
            convs.append(c);
            convs.append(");\n");
        }
        convs.append("const ");
        convs.append(ptr_name.as_str());
        convs.append(" = ");
        convs.append(arg_name.as_str());
        convs.append(".ptr;\n");
        convs.append(arg_name.as_str());
        convs.append(".ptr = 0;\n");
        if lead {
            passed.append(", ");
        }
        passed.append(ptr_name.as_str());
        proof {
            assert(convs@ =~= old(convs)@ + (if old(self).debug {
                "_assertClass("@ + arg_n(i as nat) + ", "@ + c@ + ");\n"@
            } else {
                Seq::<char>::empty()
            }) + "const "@ + ptr_n(i as nat) + " = "@ + arg_n(i as nat) + ".ptr;\n"@ + arg_n(
                i as nat,
            ) + ".ptr = 0;\n"@);
            assert(passed@ =~= old(passed)@ + (if lead {
                ", "@
            } else {
                Seq::<char>::empty()
            }) + ptr_n(i as nat));
        }
    }

    /// Marshalling of one `JsObject` argument (ownership moves into a
    /// heap handle) or one `JsObjectRef` argument (lent on the stack, to
    /// be popped by the finalizer).
    fn arg_js_object(
        &mut self,
        convs: &mut String,
        passed: &mut String,
        dtors: &mut String,
        i: u32,
        lead: bool,
        by_ref: bool,
    )
        ensures
            final(self).snip() == (if by_ref {
                install_borrowed_objects(old(self).snip())
            } else {
                install_add_heap(old(self).snip(), old(self).debug)
            }),
            rest_unchanged(*old(self), *final(self)),
            final(convs)@ == old(convs)@ + "const "@ + idx_n(i as nat) + (if by_ref {
                " = addBorrowedObject("@
            } else {
                " = addHeapObject("@
            }) + arg_n(i as nat) + ");\n"@,
            final(passed)@ == old(passed)@ + (if lead {
                ", "@
            } else {
                Seq::<char>::empty()
            }) + idx_n(i as nat),
            final(dtors)@ == old(dtors)@ + (if by_ref {
                "stack.pop();\n"@
            } else {
                Seq::<char>::empty()
            }),
    {
        let arg_name = make_indexed_name("arg", i);
        let idx_name = make_indexed_name("idx", i);
        convs.append("const ");
        convs.append(idx_name.as_str());
        if by_ref {
            self.expose_borrowed_objects();
            convs.append(" = addBorrowedObject(");
            dtors.append("stack.pop();\n");
        } else {
            self.expose_add_heap_object();
            convs.append(" = addHeapObject(");
        }
        convs.append(arg_name.as_str());
        convs.append(");\n");
        if lead {
            passed.append(", ");
        }
        passed.append(idx_name.as_str());
        proof {
            assert(convs@ =~= old(convs)@ + "const "@ + idx_n(i as nat) + (if by_ref {
                " = addBorrowedObject("@
            } else {
                " = addHeapObject("@
            }) + arg_n(i as nat) + ");\n"@);
            assert(passed@ =~= old(passed)@ + (if lead {
                ", "@
            } else {
                Seq::<char>::empty()
            }) + idx_n(i as nat));
        }
    }

    /// Process argument `i`: its declaration, its wasm-side arguments,
    /// its marshalling statements, its finalizer and its snippet
    /// requests.
    /// Append the declaration of argument `i` to the parameter list.
    #[verifier::rlimit(100)]
    #[verifier::spinoff_prover]
    fn compile_arg_decl(dst: &mut String, arguments: &Vec<HighLevelType>, i: usize)
        requires
            i < arguments@.len(),
            arguments@.len() <= u32::MAX,
        ensures
            final(dst)@ == old(dst)@ + decl_piece(arguments@[i as int], i as nat),
    {
        let arg_name = make_indexed_name("arg", i as u32);
        if i > 0 {
            dst.append(", ");
        }
        dst.append(arg_name.as_str());
        dst.append(": ");
        append_ts_type(dst, &arguments[i]);
        proof {
            assert(dst@ =~= old(dst)@ + decl_piece(arguments@[i as int], i as nat));
        }
    }

    /// Marshal one scalar or class-instance argument.
    #[verifier::rlimit(100)]
    #[verifier::spinoff_prover]
    fn marshal_basic(
        &mut self,
        passed: &mut String,
        convs: &mut String,
        dtors: &mut String,
        arguments: &Vec<HighLevelType>,
        i: usize,
        is_method: bool,
        m: &Mapped,
    )
        requires
            i < arguments@.len(),
            arguments@.len() <= u32::MAX,
            arguments@[i as int] is Number || arguments@[i as int] is Boolean || arguments@[i
                as int] is ByRef || arguments@[i as int] is ByMutRef || arguments@[i
                as int] is ByValue,
        ensures
            final(passed)@ == old(passed)@ + passed_piece(arguments@[i as int], i as nat, is_method),
            final(convs)@ == old(convs)@ + conv_piece(arguments@[i as int], i as nat, old(self).debug),
            final(dtors)@ == old(dtors)@ + dtor_piece(
                arguments@[i as int],
                i as nat,
                rename(m.names.export_pairs@, "__wbindgen_free"@),
            ),
            final(self).snip() == install_arg(
                old(self).snip(),
                arguments@[i as int],
                old(self).debug,
                old(self).nodejs,
                rename(m.names.export_pairs@, "__wbindgen_malloc"@),
            ),
            rest_unchanged(*old(self), *final(self)),
    {
        let lead = is_method || i > 0;
        match &arguments[i] {
            HighLevelType::Number => self.arg_number(convs, passed, i as u32, lead),
            HighLevelType::Boolean => self.arg_boolean(convs, passed, i as u32, lead),
            HighLevelType::ByRef(c) => self.arg_by_ref(convs, passed, i as u32, lead, c.as_str()),
            HighLevelType::ByMutRef(c) => self.arg_by_ref(convs, passed, i as u32, lead, c.as_str()),
            HighLevelType::ByValue(c) => self.arg_by_value(convs, passed, i as u32, lead, c.as_str()),
            _ => {
                proof {
                    assert(false);
                }
            },
        }
        proof {
            assert(passed@ =~= old(passed)@ + passed_piece(
                arguments@[i as int],
                i as nat,
                is_method,
            ));
            assert(convs@ =~= old(convs)@ + conv_piece(
                arguments@[i as int],
                i as nat,
                old(self).debug,
            ));
            assert(dtors@ =~= old(dtors)@ + dtor_piece(
                arguments@[i as int],
                i as nat,
                rename(m.names.export_pairs@, "__wbindgen_free"@),
            ));
        }
    }

    /// Marshal one string or host-object argument.
    #[verifier::rlimit(100)]
    #[verifier::spinoff_prover]
    fn marshal_object(
        &mut self,
        passed: &mut String,
        convs: &mut String,
        dtors: &mut String,
        arguments: &Vec<HighLevelType>,
        i: usize,
        is_method: bool,
        m: &Mapped,
    )
        requires
            i < arguments@.len(),
            arguments@.len() <= u32::MAX,
            arguments@[i as int] is BorrowedStr || arguments@[i as int] is OwnedStr || arguments@[i
                as int] is JsObject || arguments@[i as int] is JsObjectRef,
        ensures
            final(passed)@ == old(passed)@ + passed_piece(arguments@[i as int], i as nat, is_method),
            final(convs)@ == old(convs)@ + conv_piece(arguments@[i as int], i as nat, old(self).debug),
            final(dtors)@ == old(dtors)@ + dtor_piece(
                arguments@[i as int],
                i as nat,
                rename(m.names.export_pairs@, "__wbindgen_free"@),
            ),
            final(self).snip() == install_arg(
                old(self).snip(),
                arguments@[i as int],
                old(self).debug,
                old(self).nodejs,
                rename(m.names.export_pairs@, "__wbindgen_malloc"@),
            ),
            rest_unchanged(*old(self), *final(self)),
    {
        let lead = is_method || i > 0;
        match &arguments[i] {
            HighLevelType::BorrowedStr => self.arg_string(convs, passed, dtors, i as u32, lead, true, m),
            HighLevelType::OwnedStr => self.arg_string(convs, passed, dtors, i as u32, lead, false, m),
            HighLevelType::JsObject => self.arg_js_object(convs, passed, dtors, i as u32, lead, false),
            HighLevelType::JsObjectRef => self.arg_js_object(convs, passed, dtors, i as u32, lead, true),
            _ => {
                proof {
                    assert(false);
                }
            },
        }
        proof {
            assert(passed@ =~= old(passed)@ + passed_piece(
                arguments@[i as int],
                i as nat,
                is_method,
            ));
            assert(convs@ =~= old(convs)@ + conv_piece(
                arguments@[i as int],
                i as nat,
                old(self).debug,
            ));
            assert(dtors@ =~= old(dtors)@ + dtor_piece(
                arguments@[i as int],
                i as nat,
                rename(m.names.export_pairs@, "__wbindgen_free"@),
            ));
        }
    }

    /// Marshal argument `i`: its wasm-side arguments, its conversion
    /// statements, its finalizer and its snippet requests.
    fn compile_arg_marshal(
        &mut self,
        passed: &mut String,
        convs: &mut String,
        dtors: &mut String,
        arguments: &Vec<HighLevelType>,
        i: usize,
        is_method: bool,
        m: &Mapped,
    )
        requires
            i < arguments@.len(),
            arguments@.len() <= u32::MAX,
        ensures
            final(passed)@ == old(passed)@ + passed_piece(arguments@[i as int], i as nat, is_method),
            final(convs)@ == old(convs)@ + conv_piece(arguments@[i as int], i as nat, old(self).debug),
            final(dtors)@ == old(dtors)@ + dtor_piece(
                arguments@[i as int],
                i as nat,
                rename(m.names.export_pairs@, "__wbindgen_free"@),
            ),
            final(self).snip() == install_arg(
                old(self).snip(),
                arguments@[i as int],
                old(self).debug,
                old(self).nodejs,
                rename(m.names.export_pairs@, "__wbindgen_malloc"@),
            ),
            rest_unchanged(*old(self), *final(self)),
    {
        let scalar = match &arguments[i] {
            HighLevelType::Number => true,
            HighLevelType::Boolean => true,
            HighLevelType::ByRef(_) => true,
            HighLevelType::ByMutRef(_) => true,
            HighLevelType::ByValue(_) => true,
            _ => false,
        };
        if scalar {
            self.marshal_basic(passed, convs, dtors, arguments, i, is_method, m);
        } else {
            self.marshal_object(passed, convs, dtors, arguments, i, is_method, m);
        }
    }

    /// Compile one high-level signature into a host-language body and
    /// its type annotation, requesting the runtime snippets it needs and
    /// recording the wasm export it binds.
    ///
    /// Fails, leaving the generator untouched, exactly when the return
    /// type has no marshalling protocol (it has no owner on return).
    #[verifier::rlimit(100)]
    pub fn generate_function(
        &mut self,
        prefix: &str,
        name: &str,
        wasm_name: &str,
        is_method: bool,
        arguments: &Vec<HighLevelType>,
        ret: Option<&HighLevelType>,
        m: &Mapped,
    ) -> (r: Result<(String, String), GenError>)
        requires
            arguments@.len() <= u32::MAX,
        ensures
            r is Err <==> !ret_valid(opt_ty(ret)),
            r is Err ==> *final(self) == *old(self) && r->Err_0 == GenError::InvalidReturn,
            r is Ok ==> ({
                let p = r->Ok_0;
                &&& p.0@ == js_fn_text(
                    prefix@,
                    name@,
                    wasm_name@,
                    is_method,
                    arguments@,
                    opt_ty(ret),
                    old(self).debug,
                    m.names.export_pairs@,
                )
                &&& p.1@ == ts_fn_text(name@, arguments@, opt_ty(ret))
                &&& final(self).snip() == install_fn(
                    old(self).snip(),
                    arguments@,
                    opt_ty(ret),
                    old(self).debug,
                    old(self).nodejs,
                    m.names.export_pairs@,
                )
                &&& pushed_name(
                    old(self).wasm_exports_bound@,
                    final(self).wasm_exports_bound@,
                    wasm_name@,
                )
                &&& final(self).exports@ == old(self).exports@
                &&& final(self).classes@ == old(self).classes@
                &&& final(self).nodejs == old(self).nodejs
                &&& final(self).debug == old(self).debug
            }),
    {
        match ret {
            Some(HighLevelType::BorrowedStr) => {
                return Err(GenError::InvalidReturn);
            },
            Some(HighLevelType::JsObjectRef) => {
                return Err(GenError::InvalidReturn);
            },
            Some(HighLevelType::ByRef(_)) => {
                return Err(GenError::InvalidReturn);
            },
            Some(HighLevelType::ByMutRef(_)) => {
                return Err(GenError::InvalidReturn);
            },
            _ => {},
        }
        let ghost ep = m.names.export_pairs@;
        let ghost st0 = old(self).snip();
        let ghost dbg = self.debug;
        let ghost njs = self.nodejs;
        let free_name = m.names.export_name("__wbindgen_free");
        let mut dst = name.to_owned();
        dst.append("(");
        let mut passed: String = if is_method {
            "this.ptr".to_owned()
        } else {
            String::new()
        };
        let mut convs = String::new();
        let mut dtors = String::new();
        let mut i: usize = 0;
        while i < arguments.len()
            invariant
                i <= arguments@.len(),
                arguments@.len() <= u32::MAX,
                dst@ == name@ + "("@ + decl_pref(arguments@, i as int),
                passed@ == (if is_method {
                    "this.ptr"@
                } else {
                    Seq::<char>::empty()
                }) + passed_pref(arguments@, i as int, is_method),
                convs@ == conv_pref(arguments@, i as int, dbg),
                dtors@ == dtor_pref(arguments@, i as int, rename(ep, "__wbindgen_free"@)),
                self.snip() == install_args(st0, arguments@, i as int, dbg, njs, rename(ep, "__wbindgen_malloc"@)),
                self.debug == dbg,
                self.nodejs == njs,
                self.exports@ == old(self).exports@,
                self.classes@ == old(self).classes@,
                self.wasm_exports_bound@ == old(self).wasm_exports_bound@,
                dbg == old(self).debug,
                njs == old(self).nodejs,
                st0 == old(self).snip(),
                ep == m.names.export_pairs@,
            decreases arguments@.len() - i,
        {
            Js::compile_arg_decl(&mut dst, arguments, i);
            self.compile_arg_marshal(
                &mut passed,
                &mut convs,
                &mut dtors,
                arguments,
                i,
                is_method,
                m,
            );
            proof {
                let mal = rename(ep, "__wbindgen_malloc"@);
                let fre = rename(ep, "__wbindgen_free"@);
                assert(decl_pref(arguments@, i + 1) == decl_pref(arguments@, i as int)
                    + decl_piece(arguments@[i as int], i as nat));
                assert(passed_pref(arguments@, i + 1, is_method) == passed_pref(
                    arguments@,
                    i as int,
                    is_method,
                ) + passed_piece(arguments@[i as int], i as nat, is_method));
                assert(conv_pref(arguments@, i + 1, dbg) == conv_pref(arguments@, i as int, dbg)
                    + conv_piece(arguments@[i as int], i as nat, dbg));
                assert(dtor_pref(arguments@, i + 1, fre) == dtor_pref(arguments@, i as int, fre)
                    + dtor_piece(arguments@[i as int], i as nat, fre));
                assert(install_args(st0, arguments@, i + 1, dbg, njs, mal) == install_arg(
                    install_args(st0, arguments@, i as int, dbg, njs, mal),
                    arguments@[i as int],
                    dbg,
                    njs,
                    mal,
                ));
                assert(dst@ =~= name@ + "("@ + decl_pref(arguments@, i + 1));
                assert(passed@ =~= (if is_method {
                    "this.ptr"@
                } else {
                    Seq::<char>::empty()
                }) + passed_pref(arguments@, i + 1, is_method));
                assert(convs@ =~= conv_pref(arguments@, i + 1, dbg));
                assert(dtors@ =~= dtor_pref(arguments@, i + 1, fre));
            }
            i += 1;
        }
        dst.append("): ");
        let mut convert_ret = String::new();
        match ret {
            None => {
                dst.append("void");
                convert_ret.append("return ret;\n");
            },
            Some(HighLevelType::Number) => {
                dst.append("number");
                convert_ret.append("return ret;\n");
            },
            Some(HighLevelType::Boolean) => {
                dst.append("boolean");
                convert_ret.append("return ret != 0;\n");
            },
            Some(HighLevelType::JsObject) => {
                dst.append("any");
                self.expose_take_object();
                convert_ret.append("return takeObject(ret);\n");
            },
            Some(HighLevelType::ByValue(c)) => {
                dst.append(c.as_str());
                convert_ret.append("return new ");
                convert_ret.append(c.as_str());
                if self.debug {
                    convert_ret.append("(ret, token);\n");
                } else {
                    convert_ret.append("(ret);\n");
                }
            },
            Some(HighLevelType::OwnedStr) => {
                dst.append("string");
                self.expose_get_string_from_wasm();
                self.expose_wasm_exports();
                convert_ret.append("const ptr = wasm_exports.");
                let p = m.names.export_name("__wbindgen_boxed_str_ptr");
                convert_ret.append(p.as_str());
                convert_ret.append("(ret);\nconst len = wasm_exports.");
                let l = m.names.export_name("__wbindgen_boxed_str_len");
                convert_ret.append(l.as_str());
                convert_ret.append(
                    "(ret);\nconst realRet = getStringFromWasm(ptr, len);\nwasm_exports.",
                );
                let f = m.names.export_name("__wbindgen_boxed_str_free");
                convert_ret.append(f.as_str());
                convert_ret.append("(ret);\nreturn realRet;\n");
            },
            _ => {
                proof {
                    assert(false);
                }
            },
        }
        proof {
            assert(dst@ =~= sig_core(name@, arguments@, opt_ty(ret)));
            assert(convert_ret@ =~= convert_ret_text(opt_ty(ret), dbg, ep));
        }
        let mut dst_ts = dst.clone();
        dst_ts.append(";");
        self.expose_wasm_exports();
        let wasmx = m.names.export_name(wasm_name);
        let mut call = String::new();
        if dtors.as_str().is_empty() {
            call.append("const ret = wasm_exports.");
            call.append(wasmx.as_str());
            call.append("(");
            call.append(passed.as_str());
            call.append(");\n");
            call.append(convert_ret.as_str());
        } else {
            call.append("try {\nconst ret = wasm_exports.");
            call.append(wasmx.as_str());
            call.append("(");
            call.append(passed.as_str());
            call.append(");\n");
            call.append(convert_ret.as_str());
            call.append("} finally {\n");
            call.append(dtors.as_str());
            call.append("}\n");
        }
        proof {
            assert(call@ =~= call_text(
                rename(ep, wasm_name@),
                full_passed(arguments@, is_method),
                convert_ret_text(opt_ty(ret), dbg, ep),
                dtor_pref(arguments@, arguments@.len() as int, rename(ep, "__wbindgen_free"@)),
            ));
        }
        let mut js = prefix.to_owned();
        js.append(" ");
        js.append(dst.as_str());
        js.append(" {\n");
        js.append(convs.as_str());
        js.append(call.as_str());
        js.append("}");
        self.wasm_exports_bound.push(wasm_name.to_owned());
        proof {
            assert(js@ =~= js_fn_text(
                prefix@,
                name@,
                wasm_name@,
                is_method,
                arguments@,
                opt_ty(ret),
                dbg,
                ep,
            ));
            assert(dst_ts@ =~= ts_fn_text(name@, arguments@, opt_ty(ret)));
            assert(names_view(final(self).wasm_exports_bound@) =~= names_view(
                old(self).wasm_exports_bound@,
            ).push(wasm_name@));
        }
        Ok((js, dst_ts))
    }
}


/// May this type be received as an import shim argument?
pub open spec fn import_arg_ok(ty: HighLevelType) -> bool {
    match ty {
        HighLevelType::Number => true,
        HighLevelType::Boolean => true,
        HighLevelType::BorrowedStr => true,
        HighLevelType::JsObject => true,
        HighLevelType::JsObjectRef => true,
        _ => false,
    }
}

/// May this type be handed back from an import shim?
pub open spec fn import_ret_ok(ret: Option<HighLevelType>) -> bool {
    match ret {
        None => true,
        Some(HighLevelType::Number) => true,
        Some(HighLevelType::Boolean) => true,
        Some(HighLevelType::JsObject) => true,
        _ => false,
    }
}

/// Shim parameter declaration of import argument `i` (wasm-level types).
pub open spec fn imp_decl_piece(ty: HighLevelType, i: nat) -> Seq<char> {
    (if i > 0 {
        ", "@
    } else {
        Seq::<char>::empty()
    }) + (match ty {
        HighLevelType::BorrowedStr => ptr_n(i) + ": number, "@ + len_n(i) + ": number"@,
        _ => arg_n(i) + ": number"@,
    })
}

pub open spec fn imp_decl_pref(args: Seq<HighLevelType>, n: int) -> Seq<char>
    decreases n,
{
    if n <= 0 {
        Seq::empty()
    } else {
        imp_decl_pref(args, n - 1) + imp_decl_piece(args[n - 1], (n - 1) as nat)
    }
}

/// Typed interface declaration of import argument `i` (host-level types).
pub open spec fn imp_ts_piece(ty: HighLevelType, i: nat) -> Seq<char> {
    (if i > 0 {
        ", "@
    } else {
        Seq::<char>::empty()
    }) + arg_n(i) + ": "@ + (match ty {
        HighLevelType::Number => "number"@,
        HighLevelType::Boolean => "boolean"@,
        HighLevelType::BorrowedStr => "string"@,
        _ => "any"@,
    })
}

pub open spec fn imp_ts_pref(args: Seq<HighLevelType>, n: int) -> Seq<char>
    decreases n,
{
    if n <= 0 {
        Seq::empty()
    } else {
        imp_ts_pref(args, n - 1) + imp_ts_piece(args[n - 1], (n - 1) as nat)
    }
}

/// What the shim passes to the user callback for import argument `i`.
pub open spec fn imp_invoc_piece(ty: HighLevelType, i: nat) -> Seq<char> {
    (if i > 0 {
        ", "@
    } else {
        Seq::<char>::empty()
    }) + (match ty {
        HighLevelType::Number => arg_n(i),
        HighLevelType::Boolean => arg_n(i) + " != 0"@,
        HighLevelType::BorrowedStr => "getStringFromWasm("@ + ptr_n(i) + ", "@ + len_n(i) + ")"@,
        HighLevelType::JsObject => "takeObject("@ + arg_n(i) + ")"@,
        _ => "getObject("@ + arg_n(i) + ")"@,
    })
}

pub open spec fn imp_invoc_pref(args: Seq<HighLevelType>, n: int) -> Seq<char>
    decreases n,
{
    if n <= 0 {
        Seq::empty()
    } else {
        imp_invoc_pref(args, n - 1) + imp_invoc_piece(args[n - 1], (n - 1) as nat)
    }
}

/// Snippets import argument `i` requests.
pub open spec fn install_imp_arg(st: SnipState, ty: HighLevelType, debug: bool, nodejs: bool) -> SnipState {
    match ty {
        HighLevelType::BorrowedStr => install_get_string(st, nodejs),
        HighLevelType::JsObject => install_take_object(st, debug),
        HighLevelType::JsObjectRef => install_get_object(st, debug),
        _ => st,
    }
}

pub open spec fn install_imp_args(
    st: SnipState,
    args: Seq<HighLevelType>,
    n: int,
    debug: bool,
    nodejs: bool,
) -> SnipState
    decreases n,
{
    if n <= 0 {
        st
    } else {
        install_imp_arg(install_imp_args(st, args, n - 1, debug, nodejs), args[n - 1], debug, nodejs)
    }
}

/// Snippets the import return conversion requests, after the arguments'.
pub open spec fn install_import(
    st: SnipState,
    args: Seq<HighLevelType>,
    ret: Option<HighLevelType>,
    debug: bool,
    nodejs: bool,
) -> SnipState {
    let st1 = install_imp_args(st, args, args.len() as int, debug, nodejs);
    match ret {
        Some(HighLevelType::JsObject) => install_add_heap(st1, debug),
        _ => st1,
    }
}

/// The user-callback invocation, wrapped per the return protocol.
pub open spec fn imp_invocation(name: Seq<char>, args: Seq<HighLevelType>, ret: Option<HighLevelType>) -> Seq<char> {
    let invoc = "_imports."@ + name + "("@ + imp_invoc_pref(args, args.len() as int) + ")"@;
    match ret {
        Some(HighLevelType::Boolean) => invoc + " ? 1 : 0"@,
        Some(HighLevelType::JsObject) => "addHeapObject("@ + invoc + ")"@,
        _ => invoc,
    }
}

/// Wasm-level return annotation of the shim.
pub open spec fn imp_dst_ret(ret: Option<HighLevelType>) -> Seq<char> {
    match ret {
        None => "void"@,
        _ => "number"@,
    }
}

/// Host-level return annotation of the import's typed interface.
pub open spec fn imp_ts_ret(ret: Option<HighLevelType>) -> Seq<char> {
    match ret {
        None => "void"@,
        Some(HighLevelType::Number) => "number"@,
        Some(HighLevelType::Boolean) => "boolean"@,
        _ => "any"@,
    }
}

/// The complete shim body of one import.
pub open spec fn import_js_text(name: Seq<char>, args: Seq<HighLevelType>, ret: Option<HighLevelType>) -> Seq<char> {
    "function "@ + name + "_shim("@ + imp_decl_pref(args, args.len() as int) + "): "@
        + imp_dst_ret(ret) + " {\nreturn "@ + imp_invocation(name, args, ret) + ";\n}"@
}

/// The typed interface line of one import.
pub open spec fn import_ts_text(name: Seq<char>, args: Seq<HighLevelType>, ret: Option<HighLevelType>) -> Seq<char> {
    name + "("@ + imp_ts_pref(args, args.len() as int) + "): "@ + imp_ts_ret(ret) + "\n"@
}

/// Are all argument types of this import receivable?
pub open spec fn import_args_ok(args: Seq<HighLevelType>) -> bool {
    forall|j: int| 0 <= j < args.len() ==> import_arg_ok(#[trigger] args[j])
}

impl Js {
    /// Check every import argument type; report the first offender.
    fn check_import_args(&self, args: &Vec<HighLevelType>) -> (r: bool)
        ensures
            r <==> import_args_ok(args@),
    {
        let mut i: usize = 0;
        while i < args.len()
            invariant
                i <= args@.len(),
                forall|j: int| 0 <= j < i ==> import_arg_ok(#[trigger] args@[j]),
            decreases args@.len() - i,
        {
            match &args[i] {
                HighLevelType::Number => {},
                HighLevelType::Boolean => {},
                HighLevelType::BorrowedStr => {},
                HighLevelType::JsObject => {},
                HighLevelType::JsObjectRef => {},
                _ => {
                    return false;
                },
            }
            i += 1;
        }
        true
    }

    /// Process import argument `i` of the shim.
    #[verifier::rlimit(100)]
    fn compile_import_arg(
        &mut self,
        dst: &mut String,
        ts_dst: &mut String,
        invocation: &mut String,
        args: &Vec<HighLevelType>,
        i: usize,
    )
        requires
            i < args@.len(),
            args@.len() <= u32::MAX,
            import_arg_ok(args@[i as int]),
        ensures
            final(dst)@ == old(dst)@ + imp_decl_piece(args@[i as int], i as nat),
            final(ts_dst)@ == old(ts_dst)@ + imp_ts_piece(args@[i as int], i as nat),
            final(invocation)@ == old(invocation)@ + imp_invoc_piece(args@[i as int], i as nat),
            final(self).snip() == install_imp_arg(
                old(self).snip(),
                args@[i as int],
                old(self).debug,
                old(self).nodejs,
            ),
            rest_unchanged(*old(self), *final(self)),
    {
        let arg_name = make_indexed_name("arg", i as u32);
        if i > 0 {
            dst.append(", ");
            ts_dst.append(", ");
            invocation.append(", ");
        }
        ts_dst.append(arg_name.as_str());
        ts_dst.append(": ");
        match &args[i] {
            HighLevelType::Number => {
                ts_dst.append("number");
                invocation.append(arg_name.as_str());
                dst.append(arg_name.as_str());
                dst.append(": number");
            },
            HighLevelType::Boolean => {
                ts_dst.append("boolean");
                invocation.append(arg_name.as_str());
                invocation.append(" != 0");
                dst.append(arg_name.as_str());
                dst.append(": number");
            },
            HighLevelType::BorrowedStr => {
                let ptr_name = make_indexed_name("ptr", i as u32);
                let len_name = make_indexed_name("len", i as u32);
                ts_dst.append("string");
                self.expose_get_string_from_wasm();
                invocation.append("getStringFromWasm(");
                invocation.append(ptr_name.as_str());
                invocation.append(", ");
                invocation.append(len_name.as_str());
                invocation.append(")");
                dst.append(ptr_name.as_str());
                dst.append(": number, ");
                dst.append(len_name.as_str());
                dst.append(": number");
            },
            HighLevelType::JsObject => {
                ts_dst.append("any");
                self.expose_take_object();
                invocation.append("takeObject(");
                invocation.append(arg_name.as_str());
                invocation.append(")");
                dst.append(arg_name.as_str());
                dst.append(": number");
            },
            HighLevelType::JsObjectRef => {
                ts_dst.append("any");
                self.expose_get_object();
                invocation.append("getObject(");
                invocation.append(arg_name.as_str());
                invocation.append(")");
                dst.append(arg_name.as_str());
                dst.append(": number");
            },
            _ => {
                proof {
                    assert(false);
                }
            },
        }
        proof {
            assert(dst@ =~= old(dst)@ + imp_decl_piece(args@[i as int], i as nat));
            assert(ts_dst@ =~= old(ts_dst)@ + imp_ts_piece(args@[i as int], i as nat));
            assert(invocation@ =~= old(invocation)@ + imp_invoc_piece(args@[i as int], i as nat));
        }
    }

    /// Compile the shim that lets wasm invoke one user-supplied host
    /// callback with integer arguments: the wasm-level body and the
    /// host-level typed interface line.
    ///
    /// Fails, leaving the generator untouched, exactly when an argument
    /// cannot be received from wasm or the return cannot be handed back.
    #[verifier::rlimit(100)]
    pub fn generate_import(&mut self, import: &Function) -> (r: Result<(String, String), GenError>)
        requires
            import.arguments@.len() <= u32::MAX,
        ensures
            r is Err <==> !(import_args_ok(import.arguments@) && import_ret_ok(import.ret)),
            r is Err ==> *final(self) == *old(self),
            r is Err ==> (if import_args_ok(import.arguments@) {
                r->Err_0 == GenError::InvalidImportReturn
            } else {
                r->Err_0 == GenError::InvalidImportArgument
            }),
            r is Ok ==> ({
                let p = r->Ok_0;
                &&& p.0@ == import_js_text(import.name@, import.arguments@, import.ret)
                &&& p.1@ == import_ts_text(import.name@, import.arguments@, import.ret)
                &&& final(self).snip() == install_import(
                    old(self).snip(),
                    import.arguments@,
                    import.ret,
                    old(self).debug,
                    old(self).nodejs,
                )
                &&& rest_unchanged(*old(self), *final(self))
            }),
    {
        if !self.check_import_args(&import.arguments) {
            return Err(GenError::InvalidImportArgument);
        }
        match &import.ret {
            None => {},
            Some(HighLevelType::Number) => {},
            Some(HighLevelType::Boolean) => {},
            Some(HighLevelType::JsObject) => {},
            _ => {
                return Err(GenError::InvalidImportReturn);
            },
        }
        let ghost st0 = old(self).snip();
        let ghost dbg = self.debug;
        let ghost njs = self.nodejs;
        let mut dst = "function ".to_owned();
        dst.append(import.name.as_str());
        dst.append("_shim(");
        let mut ts_dst = import.name.clone();
        ts_dst.append("(");
        let mut invocation = String::new();
        let mut i: usize = 0;
        while i < import.arguments.len()
            invariant
                i <= import.arguments@.len(),
                import.arguments@.len() <= u32::MAX,
                import_args_ok(import.arguments@),
                dst@ == "function "@ + import.name@ + "_shim("@ + imp_decl_pref(
                    import.arguments@,
                    i as int,
                ),
                ts_dst@ == import.name@ + "("@ + imp_ts_pref(import.arguments@, i as int),
                invocation@ == imp_invoc_pref(import.arguments@, i as int),
                self.snip() == install_imp_args(st0, import.arguments@, i as int, dbg, njs),
                self.debug == dbg,
                self.nodejs == njs,
                rest_unchanged(*old(self), *self),
                dbg == old(self).debug,
                njs == old(self).nodejs,
                st0 == old(self).snip(),
            decreases import.arguments@.len() - i,
        {
            self.compile_import_arg(&mut dst, &mut ts_dst, &mut invocation, &import.arguments, i);
            proof {
                assert(imp_decl_pref(import.arguments@, i + 1) == imp_decl_pref(
                    import.arguments@,
                    i as int,
                ) + imp_decl_piece(import.arguments@[i as int], i as nat));
                assert(imp_ts_pref(import.arguments@, i + 1) == imp_ts_pref(
                    import.arguments@,
                    i as int,
                ) + imp_ts_piece(import.arguments@[i as int], i as nat));
                assert(imp_invoc_pref(import.arguments@, i + 1) == imp_invoc_pref(
                    import.arguments@,
                    i as int,
                ) + imp_invoc_piece(import.arguments@[i as int], i as nat));
                assert(install_imp_args(st0, import.arguments@, i + 1, dbg, njs)
                    == install_imp_arg(
                    install_imp_args(st0, import.arguments@, i as int, dbg, njs),
                    import.arguments@[i as int],
                    dbg,
                    njs,
                ));
                assert(dst@ =~= "function "@ + import.name@ + "_shim("@ + imp_decl_pref(
                    import.arguments@,
                    i + 1,
                ));
                assert(ts_dst@ =~= import.name@ + "("@ + imp_ts_pref(import.arguments@, i + 1));
                assert(invocation@ =~= imp_invoc_pref(import.arguments@, i + 1));
            }
            i += 1;
        }
        ts_dst.append("): ");
        dst.append("): ");
        let mut invoc = "_imports.".to_owned();
        invoc.append(import.name.as_str());
        invoc.append("(");
        invoc.append(invocation.as_str());
        invoc.append(")");
        let mut wrapped = String::new();
        match &import.ret {
            Some(HighLevelType::Number) => {
                ts_dst.append("number");
                dst.append("number");
                wrapped.append(invoc.as_str());
            },
            Some(HighLevelType::Boolean) => {
                ts_dst.append("boolean");
                dst.append("number");
                wrapped.append(invoc.as_str());
                wrapped.append(" ? 1 : 0");
            },
            Some(HighLevelType::JsObject) => {
                ts_dst.append("any");
                dst.append("number");
                self.expose_add_heap_object();
                wrapped.append("addHeapObject(");
                wrapped.append(invoc.as_str());
                wrapped.append(")");
            },
            None => {
                ts_dst.append("void");
                dst.append("void");
                wrapped.append(invoc.as_str());
            },
            _ => {
                proof {
                    assert(false);
                }
            },
        }
        ts_dst.append("\n");
        dst.append(" {\nreturn ");
        dst.append(wrapped.as_str());
        dst.append(";\n}");
        proof {
            assert(wrapped@ =~= imp_invocation(import.name@, import.arguments@, import.ret));
            assert(dst@ =~= import_js_text(import.name@, import.arguments@, import.ret));
            assert(ts_dst@ =~= import_ts_text(import.name@, import.arguments@, import.ret));
        }
        Ok((dst, ts_dst))
    }
}


/// Views of the export triples (name, body, interface line).
pub open spec fn exports_view(v: Seq<(String, String, String)>) -> Seq<(Seq<char>, Seq<char>, Seq<char>)> {
    v.map_values(|t: (String, String, String)| (t.0@, t.1@, t.2@))
}

/// Views of a list of names.
pub open spec fn names_view(v: Seq<String>) -> Seq<Seq<char>> {
    v.map_values(|x: String| x@)
}

/// Views of the emitted class bodies.
pub open spec fn classes_view(v: Seq<String>) -> Seq<Seq<char>> {
    v.map_values(|x: String| x@)
}

/// The class constructor: token-guarded in debug mode so user code
/// cannot invoke `new` directly.
pub open spec fn ctor_text(debug: bool) -> Seq<char> {
    if debug {
        "constructor(public ptr: number, sym: Symbol) {\n_checkToken(sym);\n}\n"@
    } else {
        "constructor(public ptr: number) {}\n"@
    }
}

/// The `free()` method: read and null the pointer, then invoke the wasm
/// destructor export with the saved pointer. On an already-freed (or
/// transferred) instance the saved pointer is 0, so the underlying
/// allocation is never destroyed twice; that second call is defined as
/// silently safe.
pub open spec fn free_method_text(free_wasm: Seq<char>) -> Seq<char> {
    "free(): void {\nconst ptr = this.ptr;\nthis.ptr = 0;\nwasm_exports."@ + free_wasm
        + "(ptr);\n}\n"@
}

/// The first `n` static functions of a struct, compiled.
pub open spec fn statics_pref(s: StructDecl, n: int, debug: bool, ep: Seq<(String, String)>) -> Seq<char>
    decreases n,
{
    if n <= 0 {
        Seq::empty()
    } else {
        let f = s.functions@[n - 1];
        statics_pref(s, n - 1, debug, ep) + js_fn_text(
            "static"@,
            f.name@,
            struct_fn_export_name(s.name@, f.name@),
            false,
            f.arguments@,
            f.ret,
            debug,
            ep,
        ) + "\n"@
    }
}

/// The first `n` instance methods of a struct, compiled.
pub open spec fn methods_pref(s: StructDecl, n: int, debug: bool, ep: Seq<(String, String)>) -> Seq<char>
    decreases n,
{
    if n <= 0 {
        Seq::empty()
    } else {
        let f = s.methods@[n - 1];
        methods_pref(s, n - 1, debug, ep) + js_fn_text(
            ""@,
            f.name@,
            struct_fn_export_name(s.name@, f.name@),
            true,
            f.arguments@,
            f.ret,
            debug,
            ep,
        ) + "\n"@
    }
}

/// The complete emitted class of one struct.
pub open spec fn class_text(s: StructDecl, debug: bool, ep: Seq<(String, String)>) -> Seq<char> {
    "export class "@ + s.name@ + " {\n"@ + ctor_text(debug) + free_method_text(
        rename(ep, free_export_name(s.name@)),
    ) + statics_pref(s, s.functions@.len() as int, debug, ep) + methods_pref(
        s,
        s.methods@.len() as int,
        debug,
        ep,
    ) + "}\n"@
}

/// The typed interface line a struct contributes to the exports.
pub open spec fn class_ts_export(name: Seq<char>) -> Seq<char> {
    name + ": typeof "@ + name + ";"@
}

/// Snippets the first `n` static functions request.
pub open spec fn install_statics(
    st: SnipState,
    s: StructDecl,
    n: int,
    debug: bool,
    nodejs: bool,
    ep: Seq<(String, String)>,
) -> SnipState
    decreases n,
{
    if n <= 0 {
        st
    } else {
        let f = s.functions@[n - 1];
        install_fn(install_statics(st, s, n - 1, debug, nodejs, ep), f.arguments@, f.ret, debug, nodejs, ep)
    }
}

/// Snippets the first `n` instance methods request.
pub open spec fn install_methods(
    st: SnipState,
    s: StructDecl,
    n: int,
    debug: bool,
    nodejs: bool,
    ep: Seq<(String, String)>,
) -> SnipState
    decreases n,
{
    if n <= 0 {
        st
    } else {
        let f = s.methods@[n - 1];
        install_fn(install_methods(st, s, n - 1, debug, nodejs, ep), f.arguments@, f.ret, debug, nodejs, ep)
    }
}

/// Snippets one emitted struct requests: the exports bag, the debug
/// construction gate, then its members' in declaration order.
pub open spec fn install_struct(
    st: SnipState,
    s: StructDecl,
    debug: bool,
    nodejs: bool,
    ep: Seq<(String, String)>,
) -> SnipState {
    let st1 = install_wasm_exports(st);
    let st2 = if debug {
        install_check_token(st1)
    } else {
        st1
    };
    install_methods(
        install_statics(st2, s, s.functions@.len() as int, debug, nodejs, ep),
        s,
        s.methods@.len() as int,
        debug,
        nodejs,
        ep,
    )
}

/// Are all member signatures of this struct compilable?
pub open spec fn struct_sigs_ok(s: StructDecl) -> bool {
    &&& forall|j: int| 0 <= j < s.functions@.len() ==> ret_valid((#[trigger] s.functions@[j]).ret)
    &&& forall|j: int| 0 <= j < s.methods@.len() ==> ret_valid((#[trigger] s.methods@[j]).ret)
}

/// Wasm export names the first `n` static functions bind.
pub open spec fn bound_statics(s: StructDecl, n: int) -> Seq<Seq<char>>
    decreases n,
{
    if n <= 0 {
        Seq::empty()
    } else {
        bound_statics(s, n - 1).push(struct_fn_export_name(s.name@, s.functions@[n - 1].name@))
    }
}

/// Wasm export names the first `n` instance methods bind.
pub open spec fn bound_methods(s: StructDecl, n: int) -> Seq<Seq<char>>
    decreases n,
{
    if n <= 0 {
        Seq::empty()
    } else {
        bound_methods(s, n - 1).push(struct_fn_export_name(s.name@, s.methods@[n - 1].name@))
    }
}

impl Js {
    /// Compile one free function and register it as a named export.
    ///
    /// Fails, leaving the generator untouched, exactly when the return
    /// type has no marshalling protocol.
    #[verifier::rlimit(100)]
    #[verifier::spinoff_prover]
    pub fn generate_free_function(&mut self, func: &Function, m: &Mapped) -> (r: Result<(), GenError>)
        requires
            func.arguments@.len() <= u32::MAX,
        ensures
            r is Err <==> !ret_valid(func.ret),
            r is Err ==> *final(self) == *old(self) && r->Err_0 == GenError::InvalidReturn,
            r is Ok ==> ({
                &&& exports_view(final(self).exports@) == exports_view(old(self).exports@).push(
                    (
                        func.name@,
                        js_fn_text(
                            "function"@,
                            func.name@,
                            func.name@,
                            false,
                            func.arguments@,
                            func.ret,
                            old(self).debug,
                            m.names.export_pairs@,
                        ),
                        ts_fn_text(func.name@, func.arguments@, func.ret),
                    ),
                )
                &&& final(self).snip() == install_fn(
                    old(self).snip(),
                    func.arguments@,
                    func.ret,
                    old(self).debug,
                    old(self).nodejs,
                    m.names.export_pairs@,
                )
                &&& names_view(final(self).wasm_exports_bound@) == names_view(
                    old(self).wasm_exports_bound@,
                ).push(func.name@)
                &&& final(self).classes@ == old(self).classes@
                &&& final(self).nodejs == old(self).nodejs
                &&& final(self).debug == old(self).debug
            }),
    {
        let retref = func.ret.as_ref();
        proof {
            assert(opt_ty(retref) == func.ret);
        }
        let pair = match self.generate_function(
            "function",
            func.name.as_str(),
            func.name.as_str(),
            false,
            &func.arguments,
            retref,
            m,
        ) {
            Ok(p) => p,
            Err(e) => {
                return Err(e);
            },
        };
        let (js, ts) = pair;
        self.exports.push((func.name.clone(), js, ts));
        proof {
            assert(exports_view(self.exports@) =~= exports_view(old(self).exports@).push(
                (
                    func.name@,
                    js_fn_text(
                        "function"@,
                        func.name@,
                        func.name@,
                        false,
                        func.arguments@,
                        func.ret,
                        old(self).debug,
                        m.names.export_pairs@,
                    ),
                    ts_fn_text(func.name@, func.arguments@, func.ret),
                ),
            ));
            assert(names_view(self.wasm_exports_bound@) =~= names_view(
                old(self).wasm_exports_bound@,
            ).push(func.name@));
        }
        Ok(())
    }

    /// Emit the class of one opaque struct: constructor, destructor,
    /// static functions and methods, and register it as an export.
    ///
    /// Fails exactly when a member's return type has no marshalling
    /// protocol; members emitted before the offending one have already
    /// requested their snippets and bound their exports.
    #[verifier::rlimit(100)]
    #[verifier::spinoff_prover]
    pub fn generate_struct(&mut self, s: &StructDecl, m: &Mapped) -> (r: Result<(), GenError>)
        requires
            forall|j: int| 0 <= j < s.functions@.len()
                ==> (#[trigger] s.functions@[j]).arguments@.len() <= u32::MAX,
            forall|j: int| 0 <= j < s.methods@.len()
                ==> (#[trigger] s.methods@[j]).arguments@.len() <= u32::MAX,
        ensures
            r is Err <==> !struct_sigs_ok(*s),
            r is Err ==> r->Err_0 == GenError::InvalidReturn && final(self).nodejs == old(
                self,
            ).nodejs && final(self).debug == old(self).debug,
            r is Ok ==> ({
                &&& classes_view(final(self).classes@) == classes_view(old(self).classes@).push(
                    class_text(*s, old(self).debug, m.names.export_pairs@),
                )
                &&& exports_view(final(self).exports@) == exports_view(old(self).exports@).push(
                    (s.name@, s.name@, class_ts_export(s.name@)),
                )
                &&& final(self).snip() == install_struct(
                    old(self).snip(),
                    *s,
                    old(self).debug,
                    old(self).nodejs,
                    m.names.export_pairs@,
                )
                &&& names_view(final(self).wasm_exports_bound@) == names_view(
                    old(self).wasm_exports_bound@,
                ).push(s.name@) + bound_statics(*s, s.functions@.len() as int) + bound_methods(
                    *s,
                    s.methods@.len() as int,
                )
                &&& final(self).nodejs == old(self).nodejs
                &&& final(self).debug == old(self).debug
            }),
    {
        let ghost ep = m.names.export_pairs@;
        let ghost dbg = self.debug;
        let ghost njs = self.nodejs;
        let mut dst = "export class ".to_owned();
        dst.append(s.name.as_str());
        dst.append(" {\n");
        self.expose_wasm_exports();
        if self.debug {
            self.expose_check_token();
            dst.append("constructor(public ptr: number, sym: Symbol) {\n_checkToken(sym);\n}\n");
        } else {
            dst.append("constructor(public ptr: number) {}\n");
        }
        let free_fn = s.free_function_name();
        let free_wasm = m.names.export_name(free_fn.as_str());
        dst.append("free(): void {\nconst ptr = this.ptr;\nthis.ptr = 0;\nwasm_exports.");
        dst.append(free_wasm.as_str());
        dst.append("(ptr);\n}\n");
        self.wasm_exports_bound.push(s.name.clone());
        proof {
            assert(dst@ =~= "export class "@ + s.name@ + " {\n"@ + ctor_text(dbg)
                + free_method_text(rename(ep, free_export_name(s.name@))));
            assert(names_view(self.wasm_exports_bound@) =~= names_view(
                old(self).wasm_exports_bound@,
            ).push(s.name@));
        }
        let ghost st1 = self.snip();
        let ghost bound1 = self.wasm_exports_bound@;
        let ghost head = dst@;
        let mut i: usize = 0;
        while i < s.functions.len()
            invariant
                i <= s.functions@.len(),
                forall|j: int| 0 <= j < s.functions@.len()
                    ==> (#[trigger] s.functions@[j]).arguments@.len() <= u32::MAX,
                forall|j: int| 0 <= j < i ==> ret_valid((#[trigger] s.functions@[j]).ret),
                dst@ == head + statics_pref(*s, i as int, dbg, ep),
                self.snip() == install_statics(st1, *s, i as int, dbg, njs, ep),
                names_view(self.wasm_exports_bound@) == names_view(bound1) + bound_statics(
                    *s,
                    i as int,
                ),
                self.exports@ == old(self).exports@,
                self.classes@ == old(self).classes@,
                self.debug == dbg,
                self.nodejs == njs,
                dbg == old(self).debug,
                njs == old(self).nodejs,
                ep == m.names.export_pairs@,
            decreases s.functions@.len() - i,
        {
            let f = &s.functions[i];
            let export = f.struct_function_export_name(s.name.as_str());
            let retref = f.ret.as_ref();
            proof {
                assert(opt_ty(retref) == f.ret);
            }
            let pair = match self.generate_function(
                "static",
                f.name.as_str(),
                export.as_str(),
                false,
                &f.arguments,
                retref,
                m,
            ) {
                Ok(p) => p,
                Err(e) => {
                    return Err(e);
                },
            };
            dst.append(pair.0.as_str());
            dst.append("\n");
            proof {
                assert(dst@ =~= head + statics_pref(*s, i + 1, dbg, ep));
                assert(names_view(self.wasm_exports_bound@) =~= names_view(bound1)
                    + bound_statics(*s, i + 1));
            }
            i += 1;
        }
        let ghost st2 = self.snip();
        let ghost bound2 = self.wasm_exports_bound@;
        let ghost head2 = dst@;
        let mut k: usize = 0;
        while k < s.methods.len()
            invariant
                k <= s.methods@.len(),
                forall|j: int| 0 <= j < s.methods@.len()
                    ==> (#[trigger] s.methods@[j]).arguments@.len() <= u32::MAX,
                forall|j: int| 0 <= j < k ==> ret_valid((#[trigger] s.methods@[j]).ret),
                dst@ == head2 + methods_pref(*s, k as int, dbg, ep),
                self.snip() == install_methods(st2, *s, k as int, dbg, njs, ep),
                names_view(self.wasm_exports_bound@) == names_view(bound2) + bound_methods(
                    *s,
                    k as int,
                ),
                self.exports@ == old(self).exports@,
                self.classes@ == old(self).classes@,
                self.debug == dbg,
                self.nodejs == njs,
                dbg == old(self).debug,
                njs == old(self).nodejs,
                ep == m.names.export_pairs@,
            decreases s.methods@.len() - k,
        {
            let f = &s.methods[k];
            let export = f.struct_function_export_name(s.name.as_str());
            let retref = f.ret.as_ref();
            proof {
                assert(opt_ty(retref) == f.ret);
            }
            let pair = match self.generate_function(
                "",
                f.name.as_str(),
                export.as_str(),
                true,
                &f.arguments,
                retref,
                m,
            ) {
                Ok(p) => p,
                Err(e) => {
                    return Err(e);
                },
            };
            dst.append(pair.0.as_str());
            dst.append("\n");
            proof {
                assert(dst@ =~= head2 + methods_pref(*s, k + 1, dbg, ep));
                assert(names_view(self.wasm_exports_bound@) =~= names_view(bound2)
                    + bound_methods(*s, k + 1));
            }
            k += 1;
        }
        dst.append("}\n");
        self.classes.push(dst);
        let mut ts_export = s.name.clone();
        ts_export.append(": typeof ");
        ts_export.append(s.name.as_str());
        ts_export.append(";");
        self.exports.push((s.name.clone(), s.name.clone(), ts_export));
        proof {
            assert(classes_view(self.classes@) =~= classes_view(old(self).classes@).push(
                class_text(*s, dbg, ep),
            ));
            assert(exports_view(self.exports@) =~= exports_view(old(self).exports@).push(
                (s.name@, s.name@, class_ts_export(s.name@)),
            ));
            assert(names_view(self.wasm_exports_bound@) =~= names_view(
                old(self).wasm_exports_bound@,
            ).push(s.name@) + bound_statics(*s, s.functions@.len() as int) + bound_methods(
                *s,
                s.methods@.len() as int,
            ));
        }
        Ok(())
    }
}


/// Export triples of the first `n` free functions.
pub open spec fn free_exports_pref(p: Program, n: int, debug: bool, ep: Seq<(String, String)>) -> Seq<(Seq<char>, Seq<char>, Seq<char>)>
    decreases n,
{
    if n <= 0 {
        Seq::empty()
    } else {
        let f = p.free_functions@[n - 1];
        free_exports_pref(p, n - 1, debug, ep).push(
            (
                f.name@,
                js_fn_text("function"@, f.name@, f.name@, false, f.arguments@, f.ret, debug, ep),
                ts_fn_text(f.name@, f.arguments@, f.ret),
            ),
        )
    }
}

/// Snippets the first `n` free functions request.
pub open spec fn install_free_pref(
    st: SnipState,
    p: Program,
    n: int,
    debug: bool,
    nodejs: bool,
    ep: Seq<(String, String)>,
) -> SnipState
    decreases n,
{
    if n <= 0 {
        st
    } else {
        let f = p.free_functions@[n - 1];
        install_fn(install_free_pref(st, p, n - 1, debug, nodejs, ep), f.arguments@, f.ret, debug, nodejs, ep)
    }
}

/// Wasm export names the first `n` free functions bind.
pub open spec fn bound_free_pref(p: Program, n: int) -> Seq<Seq<char>>
    decreases n,
{
    if n <= 0 {
        Seq::empty()
    } else {
        bound_free_pref(p, n - 1).push(p.free_functions@[n - 1].name@)
    }
}

/// Export triples of the first `n` structs.
pub open spec fn struct_exports_pref(p: Program, n: int) -> Seq<(Seq<char>, Seq<char>, Seq<char>)>
    decreases n,
{
    if n <= 0 {
        Seq::empty()
    } else {
        let s = p.structs@[n - 1];
        struct_exports_pref(p, n - 1).push((s.name@, s.name@, class_ts_export(s.name@)))
    }
}

/// Class bodies of the first `n` structs.
pub open spec fn classes_pref(p: Program, n: int, debug: bool, ep: Seq<(String, String)>) -> Seq<Seq<char>>
    decreases n,
{
    if n <= 0 {
        Seq::empty()
    } else {
        classes_pref(p, n - 1, debug, ep).push(class_text(p.structs@[n - 1], debug, ep))
    }
}

/// Snippets the first `n` structs request.
pub open spec fn install_structs_pref(
    st: SnipState,
    p: Program,
    n: int,
    debug: bool,
    nodejs: bool,
    ep: Seq<(String, String)>,
) -> SnipState
    decreases n,
{
    if n <= 0 {
        st
    } else {
        install_struct(install_structs_pref(st, p, n - 1, debug, nodejs, ep), p.structs@[n - 1], debug, nodejs, ep)
    }
}

/// Wasm export names the first `n` structs bind.
pub open spec fn bound_structs_pref(p: Program, n: int) -> Seq<Seq<char>>
    decreases n,
{
    if n <= 0 {
        Seq::empty()
    } else {
        let s = p.structs@[n - 1];
        bound_structs_pref(p, n - 1) + seq![s.name@] + bound_statics(
            s,
            s.functions@.len() as int,
        ) + bound_methods(s, s.methods@.len() as int)
    }
}

/// Every signature of the program is compilable.
pub open spec fn prog_ok(p: Program) -> bool {
    &&& forall|j: int| 0 <= j < p.free_functions@.len()
        ==> ret_valid((#[trigger] p.free_functions@[j]).ret)
    &&& forall|j: int| 0 <= j < p.structs@.len() ==> struct_sigs_ok(#[trigger] p.structs@[j])
}

/// Machine limit: every argument list of the program is indexable.
pub open spec fn prog_sizes_ok(p: Program) -> bool {
    &&& forall|j: int| 0 <= j < p.free_functions@.len()
        ==> (#[trigger] p.free_functions@[j]).arguments@.len() <= u32::MAX
    &&& forall|j: int| 0 <= j < p.structs@.len() ==> ({
        let s = #[trigger] p.structs@[j];
        &&& forall|k: int| 0 <= k < s.functions@.len()
            ==> (#[trigger] s.functions@[k]).arguments@.len() <= u32::MAX
        &&& forall|k: int| 0 <= k < s.methods@.len()
            ==> (#[trigger] s.methods@[k]).arguments@.len() <= u32::MAX
    })
}

impl Js {
    /// Walk the program: compile every free function, then emit every
    /// struct, in declaration order.
    ///
    /// Fails exactly when some signature is not compilable; items walked
    /// before the offending one have already been registered.
    #[verifier::rlimit(100)]
    #[verifier::spinoff_prover]
    pub fn generate_program(&mut self, program: &Program, m: &Mapped) -> (r: Result<(), GenError>)
        requires
            prog_sizes_ok(*program),
        ensures
            r is Ok <==> prog_ok(*program),
            final(self).nodejs == old(self).nodejs,
            final(self).debug == old(self).debug,
            r is Ok ==> ({
                &&& exports_view(final(self).exports@) == exports_view(old(self).exports@)
                    + free_exports_pref(
                    *program,
                    program.free_functions@.len() as int,
                    old(self).debug,
                    m.names.export_pairs@,
                ) + struct_exports_pref(*program, program.structs@.len() as int)
                &&& classes_view(final(self).classes@) == classes_view(old(self).classes@)
                    + classes_pref(
                    *program,
                    program.structs@.len() as int,
                    old(self).debug,
                    m.names.export_pairs@,
                )
                &&& final(self).snip() == install_structs_pref(
                    install_free_pref(
                        old(self).snip(),
                        *program,
                        program.free_functions@.len() as int,
                        old(self).debug,
                        old(self).nodejs,
                        m.names.export_pairs@,
                    ),
                    *program,
                    program.structs@.len() as int,
                    old(self).debug,
                    old(self).nodejs,
                    m.names.export_pairs@,
                )
                &&& names_view(final(self).wasm_exports_bound@) == names_view(
                    old(self).wasm_exports_bound@,
                ) + bound_free_pref(*program, program.free_functions@.len() as int)
                    + bound_structs_pref(*program, program.structs@.len() as int)
            }),
    {
        let ghost ep = m.names.export_pairs@;
        let ghost dbg = self.debug;
        let ghost njs = self.nodejs;
        let ghost st0 = self.snip();
        let ghost exp0 = self.exports@;
        let ghost cls0 = self.classes@;
        let ghost bnd0 = self.wasm_exports_bound@;
        let mut i: usize = 0;
        while i < program.free_functions.len()
            invariant
                i <= program.free_functions@.len(),
                prog_sizes_ok(*program),
                forall|j: int| 0 <= j < i ==> ret_valid((#[trigger] program.free_functions@[j]).ret),
                exports_view(self.exports@) == exports_view(exp0) + free_exports_pref(
                    *program,
                    i as int,
                    dbg,
                    ep,
                ),
                self.classes@ == cls0,
                self.snip() == install_free_pref(st0, *program, i as int, dbg, njs, ep),
                names_view(self.wasm_exports_bound@) == names_view(bnd0) + bound_free_pref(
                    *program,
                    i as int,
                ),
                self.debug == dbg,
                self.nodejs == njs,
                dbg == old(self).debug,
                njs == old(self).nodejs,
                st0 == old(self).snip(),
                exp0 == old(self).exports@,
                cls0 == old(self).classes@,
                bnd0 == old(self).wasm_exports_bound@,
                ep == m.names.export_pairs@,
            decreases program.free_functions@.len() - i,
        {
            match self.generate_free_function(&program.free_functions[i], m) {
                Ok(()) => {},
                Err(e) => {
                    return Err(e);
                },
            }
            proof {
                assert(exports_view(self.exports@) =~= exports_view(exp0) + free_exports_pref(
                    *program,
                    i + 1,
                    dbg,
                    ep,
                ));
                assert(names_view(self.wasm_exports_bound@) =~= names_view(bnd0)
                    + bound_free_pref(*program, i + 1));
            }
            i += 1;
        }
        let ghost st1 = self.snip();
        let ghost exp1 = self.exports@;
        let ghost bnd1 = self.wasm_exports_bound@;
        let mut k: usize = 0;
        while k < program.structs.len()
            invariant
                k <= program.structs@.len(),
                prog_sizes_ok(*program),
                forall|j: int| 0 <= j < k ==> struct_sigs_ok(#[trigger] program.structs@[j]),
                exports_view(self.exports@) == exports_view(exp1) + struct_exports_pref(
                    *program,
                    k as int,
                ),
                classes_view(self.classes@) == classes_view(cls0) + classes_pref(
                    *program,
                    k as int,
                    dbg,
                    ep,
                ),
                self.snip() == install_structs_pref(st1, *program, k as int, dbg, njs, ep),
                names_view(self.wasm_exports_bound@) == names_view(bnd1) + bound_structs_pref(
                    *program,
                    k as int,
                ),
                self.debug == dbg,
                self.nodejs == njs,
                dbg == old(self).debug,
                njs == old(self).nodejs,
                cls0 == old(self).classes@,
                ep == m.names.export_pairs@,
                st1 == install_free_pref(st0, *program, program.free_functions@.len() as int, dbg, njs, ep),
                exports_view(exp1) == exports_view(exp0) + free_exports_pref(
                    *program,
                    program.free_functions@.len() as int,
                    dbg,
                    ep,
                ),
                names_view(bnd1) == names_view(bnd0) + bound_free_pref(
                    *program,
                    program.free_functions@.len() as int,
                ),
                st0 == old(self).snip(),
                exp0 == old(self).exports@,
                bnd0 == old(self).wasm_exports_bound@,
            decreases program.structs@.len() - k,
        {
            match self.generate_struct(&program.structs[k], m) {
                Ok(()) => {},
                Err(e) => {
                    return Err(e);
                },
            }
            proof {
                assert(exports_view(self.exports@) =~= exports_view(exp1) + struct_exports_pref(
                    *program,
                    k + 1,
                ));
                assert(classes_view(self.classes@) =~= classes_view(cls0) + classes_pref(
                    *program,
                    k + 1,
                    dbg,
                    ep,
                ));
                assert(names_view(self.wasm_exports_bound@) =~= names_view(bnd1)
                    + bound_structs_pref(*program, k + 1));
            }
            k += 1;
        }
        Ok(())
    }
}

} // verus!
