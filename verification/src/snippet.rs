//! The runtime snippet library: a fixed set of named helper globals the
//! generated glue may need. Each snippet is emitted at most once; a
//! snippet requests its dependencies before its own text is appended.
//!
//! The pure `install_*` functions below give the exact effect of one
//! request on the pair (installed snippets, emitted text); the generator
//! methods promise exactly these effects.

use vstd::prelude::*;

verus! {

/// Identifier of one runtime snippet.
#[derive(Clone, Copy, PartialEq, Eq, Structural)]
pub enum Snippet {
    Stack,
    Slab,
    SlabNext,
    Memory,
    WasmExports,
    CheckToken,
    AssertNum,
    AssertBool,
    AssertClass,
    PassStringToWasm,
    GetStringFromWasm,
    AddHeapObject,
    BorrowedObjects,
    GetObject,
    DropRef,
    TakeObject,
}

/// The state a snippet request acts on: which snippets are installed, in
/// order, and the text of the globals region so far.
#[verifier::ext_equal]
pub struct SnipState {
    pub exposed: Seq<Snippet>,
    pub globals: Seq<char>,
}

pub open spec fn stack_text() -> Seq<char> {
    "let stack: any[] = [];\n"@
}

pub open spec fn slab_text() -> Seq<char> {
    "let slab: ({ obj: any, cnt: number } | number)[] = [];\n"@
}

pub open spec fn slab_next_text() -> Seq<char> {
    "let slab_next: number = 0;\n"@
}

pub open spec fn memory_text() -> Seq<char> {
    "let memory: WebAssembly.Memory;\n"@
}

pub open spec fn wasm_exports_text() -> Seq<char> {
    "let wasm_exports: WasmExports;\n"@
}

pub open spec fn check_token_text() -> Seq<char> {
    "const token = Symbol('foo');\nfunction _checkToken(sym: Symbol): void {\n    if (token !== sym)\n        throw new Error('cannot invoke `new` directly');\n}\n"@
}

pub open spec fn assert_num_text() -> Seq<char> {
    "function _assertNum(n: number): void {\n    if (typeof(n) !== 'number')\n        throw new Error('expected a number argument');\n}\n"@
}

pub open spec fn assert_bool_text() -> Seq<char> {
    "function _assertBoolean(n: boolean) {\n    if (typeof(n) !== 'boolean')\n        throw new Error('expected a boolean argument');\n}\n"@
}

pub open spec fn assert_class_text() -> Seq<char> {
    "function _assertClass(instance: any, klass: any) {\n    if (!(instance instanceof klass))\n        throw new Error(`expected instance of ${klass.name}`);\n    return instance.ptr;\n}\n"@
}

/// The string-transfer helper into wasm memory; `malloc` is the wasm-side
/// name of the allocator export. The `nodejs` flag selects the buffer API
/// over the streaming text encoder.
pub open spec fn pass_string_text(nodejs: bool, malloc: Seq<char>) -> Seq<char> {
    if nodejs {
        "function passStringToWasm(arg: string): [number, number] {\n    if (typeof(arg) !== 'string')\n        throw new Error('expected a string argument');\n    const buf = Buffer.from(arg);\n    const len = buf.length;\n    const ptr = wasm_exports."@
            + malloc
            + "(len);\n    buf.copy(Buffer.from(memory.buffer), ptr);\n    return [ptr, len];\n}\n"@
    } else {
        "function passStringToWasm(arg: string): [number, number] {\n    if (typeof(arg) !== 'string')\n        throw new Error('expected a string argument');\n    const buf = new TextEncoder('utf-8').encode(arg);\n    const len = buf.length;\n    const ptr = wasm_exports."@
            + malloc
            + "(len);\n    let array = new Uint8Array(memory.buffer);\n    array.set(buf, ptr);\n    return [ptr, len];\n}\n"@
    }
}

pub open spec fn get_string_text(nodejs: bool) -> Seq<char> {
    if nodejs {
        "function getStringFromWasm(ptr: number, len: number): string {\n    const buf = Buffer.from(memory.buffer).slice(ptr, ptr + len);\n    const ret = buf.toString();\n    return ret;\n}\n"@
    } else {
        "function getStringFromWasm(ptr: number, len: number): string {\n    const mem = new Uint8Array(memory.buffer);\n    const slice = mem.slice(ptr, ptr + len);\n    const ret = new TextDecoder('utf-8').decode(slice);\n    return ret;\n}\n"@
    }
}

pub open spec fn add_heap_text(debug: bool) -> Seq<char> {
    if debug {
        "function addHeapObject(obj: any): number {\n    if (slab_next == slab.length)\n        slab.push(slab.length + 1);\n    const idx = slab_next;\n    const next = slab[idx];\n    if (typeof(next) !== 'number')\n        throw new Error('corrupt slab');\n    slab_next = next;\n    slab[idx] = { obj, cnt: 1 };\n    return idx << 1;\n}\n"@
    } else {
        "function addHeapObject(obj: any): number {\n    if (slab_next == slab.length)\n        slab.push(slab.length + 1);\n    const idx = slab_next;\n    const next = slab[idx];\n    slab_next = next as number;\n    slab[idx] = { obj, cnt: 1 };\n    return idx << 1;\n}\n"@
    }
}

pub open spec fn borrowed_objects_text() -> Seq<char> {
    "function addBorrowedObject(obj: any): number {\n    stack.push(obj);\n    return ((stack.length - 1) << 1) | 1;\n}\n"@
}

pub open spec fn get_object_text(debug: bool) -> Seq<char> {
    if debug {
        "function getObject(idx: number): any {\n    if ((idx & 1) === 1) {\n        return stack[idx >> 1];\n    } else {\n        const val = slab[idx >> 1];\n        if (typeof(val) === 'number')\n            throw new Error('corrupt slab');\n        return val.obj;\n    }\n}\n"@
    } else {
        "function getObject(idx: number): any {\n    if ((idx & 1) === 1) {\n        return stack[idx >> 1];\n    } else {\n        const val = slab[idx >> 1];\n        return (val as {obj:any}).obj;\n    }\n}\n"@
    }
}

pub open spec fn drop_ref_text(debug: bool) -> Seq<char> {
    if debug {
        "function dropRef(idx: number): void {\n    if ((idx & 1) === 1)\n        throw new Error('cannot drop ref of stack objects');\n    let obj = slab[idx >> 1];\n    if (typeof(obj) === 'number')\n        throw new Error('corrupt slab');\n    obj.cnt -= 1;\n    if (obj.cnt > 0)\n        return;\n    slab[idx >> 1] = slab_next;\n    slab_next = idx >> 1;\n}\n"@
    } else {
        "function dropRef(idx: number): void {\n    let obj = slab[idx >> 1];\n    (obj as {cnt:number}).cnt -= 1;\n    if ((obj as {cnt:number}).cnt > 0)\n        return;\n    slab[idx >> 1] = slab_next;\n    slab_next = idx >> 1;\n}\n"@
    }
}

pub open spec fn take_object_text() -> Seq<char> {
    "function takeObject(idx: number): any {\n    const ret = getObject(idx);\n    dropRef(idx);\n    return ret;\n}\n"@
}

/// Install a snippet with no dependencies: a no-op when it is already
/// installed, else append its identifier and its text.
pub open spec fn put(st: SnipState, s: Snippet, t: Seq<char>) -> SnipState {
    if st.exposed.contains(s) {
        st
    } else {
        SnipState { exposed: st.exposed.push(s), globals: st.globals + t }
    }
}

pub open spec fn install_stack(st: SnipState) -> SnipState {
    put(st, Snippet::Stack, stack_text())
}

pub open spec fn install_slab(st: SnipState) -> SnipState {
    put(st, Snippet::Slab, slab_text())
}

pub open spec fn install_slab_next(st: SnipState) -> SnipState {
    put(st, Snippet::SlabNext, slab_next_text())
}

pub open spec fn install_memory(st: SnipState) -> SnipState {
    put(st, Snippet::Memory, memory_text())
}

pub open spec fn install_wasm_exports(st: SnipState) -> SnipState {
    put(st, Snippet::WasmExports, wasm_exports_text())
}

pub open spec fn install_check_token(st: SnipState) -> SnipState {
    put(st, Snippet::CheckToken, check_token_text())
}

pub open spec fn install_assert_num(st: SnipState) -> SnipState {
    put(st, Snippet::AssertNum, assert_num_text())
}

pub open spec fn install_assert_bool(st: SnipState) -> SnipState {
    put(st, Snippet::AssertBool, assert_bool_text())
}

pub open spec fn install_assert_class(st: SnipState) -> SnipState {
    put(st, Snippet::AssertClass, assert_class_text())
}

pub open spec fn install_pass_string(st: SnipState, nodejs: bool, malloc: Seq<char>) -> SnipState {
    if st.exposed.contains(Snippet::PassStringToWasm) {
        st
    } else {
        let st1 = install_wasm_exports(st);
        let st2 = install_memory(st1);
        SnipState {
            exposed: st2.exposed.push(Snippet::PassStringToWasm),
            globals: st2.globals + pass_string_text(nodejs, malloc),
        }
    }
}

pub open spec fn install_get_string(st: SnipState, nodejs: bool) -> SnipState {
    if st.exposed.contains(Snippet::GetStringFromWasm) {
        st
    } else {
        let st1 = install_memory(st);
        SnipState {
            exposed: st1.exposed.push(Snippet::GetStringFromWasm),
            globals: st1.globals + get_string_text(nodejs),
        }
    }
}

pub open spec fn install_add_heap(st: SnipState, debug: bool) -> SnipState {
    if st.exposed.contains(Snippet::AddHeapObject) {
        st
    } else {
        let st1 = install_slab(st);
        let st2 = install_slab_next(st1);
        SnipState {
            exposed: st2.exposed.push(Snippet::AddHeapObject),
            globals: st2.globals + add_heap_text(debug),
        }
    }
}

pub open spec fn install_borrowed_objects(st: SnipState) -> SnipState {
    if st.exposed.contains(Snippet::BorrowedObjects) {
        st
    } else {
        let st1 = install_stack(st);
        SnipState {
            exposed: st1.exposed.push(Snippet::BorrowedObjects),
            globals: st1.globals + borrowed_objects_text(),
        }
    }
}

pub open spec fn install_get_object(st: SnipState, debug: bool) -> SnipState {
    if st.exposed.contains(Snippet::GetObject) {
        st
    } else {
        let st1 = install_stack(st);
        let st2 = install_slab(st1);
        SnipState {
            exposed: st2.exposed.push(Snippet::GetObject),
            globals: st2.globals + get_object_text(debug),
        }
    }
}

pub open spec fn install_drop_ref(st: SnipState, debug: bool) -> SnipState {
    if st.exposed.contains(Snippet::DropRef) {
        st
    } else {
        let st1 = install_slab(st);
        let st2 = install_slab_next(st1);
        SnipState {
            exposed: st2.exposed.push(Snippet::DropRef),
            globals: st2.globals + drop_ref_text(debug),
        }
    }
}

pub open spec fn install_take_object(st: SnipState, debug: bool) -> SnipState {
    if st.exposed.contains(Snippet::TakeObject) {
        st
    } else {
        let st1 = install_get_object(st, debug);
        let st2 = install_drop_ref(st1, debug);
        SnipState {
            exposed: st2.exposed.push(Snippet::TakeObject),
            globals: st2.globals + take_object_text(),
        }
    }
}

} // verus!
