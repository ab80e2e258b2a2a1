//! The top-level assembler: stitches the runtime globals, the typed
//! wasm-level interfaces, the typed high-level interfaces, the intrinsic
//! implementations and the instantiation entry point into one output
//! source text.

use vstd::prelude::*;
use vstd::string::*;
use crate::codegen::Js;
use crate::codegen::Mapped;
use crate::codegen::GenError;
use crate::codegen::exports_view;
use crate::codegen::names_view;
use crate::codegen::import_js_text;
use crate::codegen::import_ts_text;
use crate::codegen::import_args_ok;
use crate::codegen::import_ret_ok;
use crate::codegen::install_import;
use crate::codegen::rest_unchanged;
use crate::module_view::pair_views;
use crate::name_map::rename;
use crate::name_map::unrename;
use crate::snippet::SnipState;
use crate::snippet::Snippet;
use crate::snippet::install_stack;
use crate::snippet::install_slab;
use crate::snippet::install_memory;
use crate::snippet::install_pass_string;
use crate::snippet::install_get_string;
use crate::snippet::install_add_heap;
use crate::snippet::install_get_object;
use crate::snippet::install_drop_ref;
use crate::text::str_eq;
use crate::text::starts_with_prefix;
use crate::ty::Program;

verus! {

/// Does the module (via the rename table) need this well-known import?
pub open spec fn needed(m: Mapped, name: Seq<char>) -> bool {
    m.module.has_env_import(rename(m.names.import_pairs@, name))
}

/// Is this an internal symbol of the glue itself?
pub open spec fn has_internal_prefix(s: Seq<char>) -> bool {
    "__wbindgen"@.len() <= s.len() && s.subrange(0, "__wbindgen"@.len() as int) == "__wbindgen"@
}

/// The debug-only export that checks nothing is left on the heap or the
/// stack.
pub open spec fn assert_empty_body() -> Seq<char> {
    "function(): void {\nif (stack.length > 0)\nthrow new Error('stack is not empty');\nfor (let i = 0; i < slab.length; i++) {\nif (typeof(slab[i]) !== 'number')\nthrow new Error('slab is not empty');\n}\n}"@
}

/// The emitted class bodies, each followed by a newline.
pub open spec fn classes_join(cls: Seq<String>, n: int) -> Seq<char>
    decreases n,
{
    if n <= 0 {
        Seq::empty()
    } else {
        classes_join(cls, n - 1) + cls[n - 1]@ + "\n"@
    }
}

/// The members of the exports object: `name: body,` per export.
pub open spec fn exports_obj_pref(v: Seq<(Seq<char>, Seq<char>, Seq<char>)>, n: int) -> Seq<char>
    decreases n,
{
    if n <= 0 {
        Seq::empty()
    } else {
        exports_obj_pref(v, n - 1) + v[n - 1].0 + ": "@ + v[n - 1].1 + ",\n"@
    }
}

/// The typed interface lines of the exports.
pub open spec fn exports_iface_pref(v: Seq<(Seq<char>, Seq<char>, Seq<char>)>, n: int) -> Seq<char>
    decreases n,
{
    if n <= 0 {
        Seq::empty()
    } else {
        exports_iface_pref(v, n - 1) + v[n - 1].2 + "\n"@
    }
}

/// Is entry `k` of the wasm export list an extra (not internal, not
/// already bound by the descriptor)?
pub open spec fn extra_export_at(e: (Seq<char>, Seq<char>), ep: Seq<(String, String)>, bound: Seq<Seq<char>>) -> bool {
    !has_internal_prefix(unrename(ep, e.0)) && !bound.contains(unrename(ep, e.0))
}

pub open spec fn any_extra_export(list: Seq<(Seq<char>, Seq<char>)>, ep: Seq<(String, String)>, bound: Seq<Seq<char>>) -> bool {
    exists|k: int| 0 <= k < list.len() && extra_export_at(#[trigger] list[k], ep, bound)
}

/// The extras members of the exports object.
pub open spec fn extra_exports_obj_pref(list: Seq<(Seq<char>, Seq<char>)>, n: int, ep: Seq<(String, String)>, bound: Seq<Seq<char>>) -> Seq<char>
    decreases n,
{
    if n <= 0 {
        Seq::empty()
    } else {
        extra_exports_obj_pref(list, n - 1, ep, bound) + (if extra_export_at(list[n - 1], ep, bound) {
            list[n - 1].0 + ":exports."@ + list[n - 1].0 + ",\n"@
        } else {
            Seq::<char>::empty()
        })
    }
}

/// The typed interface lines of the extra exports.
pub open spec fn extra_exports_iface_pref(list: Seq<(Seq<char>, Seq<char>)>, n: int, ep: Seq<(String, String)>, bound: Seq<Seq<char>>) -> Seq<char>
    decreases n,
{
    if n <= 0 {
        Seq::empty()
    } else {
        extra_exports_iface_pref(list, n - 1, ep, bound) + (if extra_export_at(list[n - 1], ep, bound) {
            list[n - 1].1 + "\n"@
        } else {
            Seq::<char>::empty()
        })
    }
}

/// Every unbound, non-internal wasm export still carries its original
/// name: renaming an export and then not binding it would leave the
/// extras passthrough unable to reach it.
pub open spec fn extras_exports_ok(list: Seq<(Seq<char>, Seq<char>)>, ep: Seq<(String, String)>, bound: Seq<Seq<char>>) -> bool {
    forall|k: int|
        0 <= k < list.len() && extra_export_at(#[trigger] list[k], ep, bound) ==> unrename(
            ep,
            list[k].0,
        ) == list[k].0
}

/// Is this program import actually imported by the wasm module (it may
/// have been optimized away)?
pub open spec fn import_present(f: crate::ty::Function, m: Mapped) -> bool {
    m.module.has_env_import(rename(m.names.import_pairs@, f.name@))
}

/// The members of the imports object contributed by declared imports.
pub open spec fn imports_obj_pref(p: Program, n: int, m: Mapped) -> Seq<char>
    decreases n,
{
    if n <= 0 {
        Seq::empty()
    } else {
        let f = p.imports@[n - 1];
        imports_obj_pref(p, n - 1, m) + (if import_present(f, m) {
            rename(m.names.import_pairs@, f.name@) + ":"@ + import_js_text(
                f.name@,
                f.arguments@,
                f.ret,
            ) + ",\n"@
        } else {
            Seq::<char>::empty()
        })
    }
}

/// The typed interface lines of the declared imports.
pub open spec fn imports_iface_pref(p: Program, n: int, m: Mapped) -> Seq<char>
    decreases n,
{
    if n <= 0 {
        Seq::empty()
    } else {
        let f = p.imports@[n - 1];
        imports_iface_pref(p, n - 1, m) + (if import_present(f, m) {
            import_ts_text(f.name@, f.arguments@, f.ret) + "\n"@
        } else {
            Seq::<char>::empty()
        })
    }
}

/// Snippets the first `n` declared-and-present imports request.
pub open spec fn install_imports_pref(st: SnipState, p: Program, n: int, m: Mapped, debug: bool, nodejs: bool) -> SnipState
    decreases n,
{
    if n <= 0 {
        st
    } else {
        let f = p.imports@[n - 1];
        let st1 = install_imports_pref(st, p, n - 1, m, debug, nodejs);
        if import_present(f, m) {
            install_import(st1, f.arguments@, f.ret, debug, nodejs)
        } else {
            st1
        }
    }
}

/// The (renamed) names of the first `n` declared-and-present imports.
pub open spec fn bound_imports_pref(p: Program, n: int, m: Mapped) -> Seq<Seq<char>>
    decreases n,
{
    if n <= 0 {
        Seq::empty()
    } else {
        let f = p.imports@[n - 1];
        bound_imports_pref(p, n - 1, m) + (if import_present(f, m) {
            seq![rename(m.names.import_pairs@, f.name@)]
        } else {
            Seq::<Seq<char>>::empty()
        })
    }
}

/// Every present declared import has receivable arguments and a
/// returnable result.
pub open spec fn prog_imports_ok(p: Program, m: Mapped) -> bool {
    forall|j: int|
        0 <= j < p.imports@.len() && import_present(#[trigger] p.imports@[j], m) ==> (
        import_args_ok(p.imports@[j].arguments@) && import_ret_ok(p.imports@[j].ret))
}

pub open spec fn prog_import_sizes_ok(p: Program) -> bool {
    forall|j: int| 0 <= j < p.imports@.len() ==> (#[trigger] p.imports@[j]).arguments@.len() <= u32::MAX
}

/// The well-known intrinsic names the binder implements.
pub open spec fn well_known_intrinsic(n: Seq<char>) -> bool {
    ||| n == "__wbindgen_object_clone_ref"@
    ||| n == "__wbindgen_object_drop_ref"@
    ||| n == "__wbindgen_string_new"@
    ||| n == "__wbindgen_number_new"@
    ||| n == "__wbindgen_number_get"@
    ||| n == "__wbindgen_undefined_new"@
    ||| n == "__wbindgen_null_new"@
    ||| n == "__wbindgen_is_null"@
    ||| n == "__wbindgen_is_undefined"@
    ||| n == "__wbindgen_boolean_new"@
    ||| n == "__wbindgen_boolean_get"@
    ||| n == "__wbindgen_symbol_new"@
    ||| n == "__wbindgen_is_symbol"@
    ||| n == "__wbindgen_throw"@
    ||| n == "__wbindgen_string_get"@
}

/// Is this wasm-side import name the one a well-known intrinsic binds?
pub open spec fn intrinsic_bound(ip: Seq<(String, String)>, nm: Seq<char>) -> bool {
    exists|n: Seq<char>| well_known_intrinsic(n) && rename(ip, n) == nm
}

/// Is entry `k` of the wasm import list an extra? Everything the
/// descriptor did not bind and the intrinsic binder does not implement
/// passes through — an internal-prefixed import outside the well-known
/// set included: the user must provide it, and dropping it would make
/// instantiation fail with no recourse.
pub open spec fn extra_import_at(e: (Seq<char>, Seq<char>), ip: Seq<(String, String)>, bound: Seq<Seq<char>>) -> bool {
    !bound.contains(e.0) && !intrinsic_bound(ip, e.0)
}

pub open spec fn any_extra_import(list: Seq<(Seq<char>, Seq<char>)>, ip: Seq<(String, String)>, bound: Seq<Seq<char>>) -> bool {
    exists|k: int| 0 <= k < list.len() && extra_import_at(#[trigger] list[k], ip, bound)
}

pub open spec fn extra_imports_obj_pref(list: Seq<(Seq<char>, Seq<char>)>, n: int, ip: Seq<(String, String)>, bound: Seq<Seq<char>>) -> Seq<char>
    decreases n,
{
    if n <= 0 {
        Seq::empty()
    } else {
        extra_imports_obj_pref(list, n - 1, ip, bound) + (if extra_import_at(list[n - 1], ip, bound) {
            list[n - 1].0 + ":_imports.env."@ + list[n - 1].0 + ",\n"@
        } else {
            Seq::<char>::empty()
        })
    }
}

pub open spec fn extra_imports_iface_pref(list: Seq<(Seq<char>, Seq<char>)>, n: int, ip: Seq<(String, String)>, bound: Seq<Seq<char>>) -> Seq<char>
    decreases n,
{
    if n <= 0 {
        Seq::empty()
    } else {
        extra_imports_iface_pref(list, n - 1, ip, bound) + (if extra_import_at(list[n - 1], ip, bound) {
            list[n - 1].1 + "\n"@
        } else {
            Seq::<char>::empty()
        })
    }
}

/// Every passed-through wasm import whose original name is not internal
/// still carries that original name. (Internal-prefixed extras are keyed
/// by their wasm-side name either way.)
pub open spec fn extras_imports_ok(list: Seq<(Seq<char>, Seq<char>)>, ip: Seq<(String, String)>, bound: Seq<Seq<char>>) -> bool {
    forall|k: int|
        0 <= k < list.len() && extra_import_at(#[trigger] list[k], ip, bound)
            && !has_internal_prefix(unrename(ip, list[k].0)) ==> unrename(ip, list[k].0)
            == list[k].0
}

/// One typed interface line per wasm-level function, newline-terminated.
pub open spec fn join_pref(list: Seq<(Seq<char>, Seq<char>)>, n: int) -> Seq<char>
    decreases n,
{
    if n <= 0 {
        Seq::empty()
    } else {
        join_pref(list, n - 1) + list[n - 1].1 + "\n"@
    }
}

/// The capture statements of the post-instantiation hook.
pub open spec fn writes_text(exposed: Seq<Snippet>) -> Seq<char> {
    (if exposed.contains(Snippet::Memory) {
        "memory = exports.memory;\n"@
    } else {
        Seq::<char>::empty()
    }) + (if exposed.contains(Snippet::WasmExports) {
        "wasm_exports = exports;\n"@
    } else {
        Seq::<char>::empty()
    })
}

impl Js {
    /// Append the emitted classes to the globals region.
    fn append_classes(&mut self)
        ensures
            final(self).globals@ == old(self).globals@ + classes_join(
                old(self).classes@,
                old(self).classes@.len() as int,
            ),
            final(self).exposed_globals@ == old(self).exposed_globals@,
            rest_unchanged(*old(self), *final(self)),
    {
        let mut i: usize = 0;
        while i < self.classes.len()
            invariant
                i <= self.classes@.len(),
                self.classes@ == old(self).classes@,
                self.exposed_globals@ == old(self).exposed_globals@,
                self.exports@ == old(self).exports@,
                self.wasm_exports_bound@ == old(self).wasm_exports_bound@,
                self.nodejs == old(self).nodejs,
                self.debug == old(self).debug,
                self.globals@ == old(self).globals@ + classes_join(old(self).classes@, i as int),
            decreases self.classes@.len() - i,
        {
            let piece = self.classes[i].clone();
            self.globals.append(piece.as_str());
            self.globals.append("\n");
            proof {
                assert(self.globals@ =~= old(self).globals@ + classes_join(
                    old(self).classes@,
                    i + 1,
                ));
            }
            i += 1;
        }
    }

    /// Build the always-present members of the exports object and the
    /// export interface lines.
    fn build_exports_object(&self) -> (r: (String, String))
        ensures
            r.0@ == exports_obj_pref(exports_view(self.exports@), self.exports@.len() as int),
            r.1@ == exports_iface_pref(exports_view(self.exports@), self.exports@.len() as int),
    {
        let mut obj = String::new();
        let mut iface = String::new();
        let mut i: usize = 0;
        while i < self.exports.len()
            invariant
                i <= self.exports@.len(),
                obj@ == exports_obj_pref(exports_view(self.exports@), i as int),
                iface@ == exports_iface_pref(exports_view(self.exports@), i as int),
            decreases self.exports@.len() - i,
        {
            let t = &self.exports[i];
            obj.append(t.0.as_str());
            obj.append(": ");
            obj.append(t.1.as_str());
            obj.append(",\n");
            iface.append(t.2.as_str());
            iface.append("\n");
            proof {
                assert(obj@ =~= exports_obj_pref(exports_view(self.exports@), i + 1));
                assert(iface@ =~= exports_iface_pref(exports_view(self.exports@), i + 1));
            }
            i += 1;
        }
        (obj, iface)
    }

    /// Does the bound-exports record hold this original name?
    fn bound_contains(&self, name: &str) -> (r: bool)
        ensures
            r <==> names_view(self.wasm_exports_bound@).contains(name@),
    {
        let mut i: usize = 0;
        while i < self.wasm_exports_bound.len()
            invariant
                i <= self.wasm_exports_bound@.len(),
                forall|j: int| 0 <= j < i ==> names_view(self.wasm_exports_bound@)[j] != name@,
            decreases self.wasm_exports_bound@.len() - i,
        {
            if str_eq(self.wasm_exports_bound[i].as_str(), name) {
                proof {
                    assert(names_view(self.wasm_exports_bound@)[i as int] == name@);
                }
                return true;
            }
            i += 1;
        }
        proof {
            if names_view(self.wasm_exports_bound@).contains(name@) {
                let j = choose|j: int|
                    0 <= j < names_view(self.wasm_exports_bound@).len() && names_view(
                        self.wasm_exports_bound@,
                    )[j] == name@;
                assert(false);
            }
        }
        false
    }
}

/// Does a name list hold this name?
fn name_list_contains(v: &Vec<String>, name: &str) -> (r: bool)
    ensures
        r <==> names_view(v@).contains(name@),
{
    let mut i: usize = 0;
    while i < v.len()
        invariant
            i <= v@.len(),
            forall|j: int| 0 <= j < i ==> names_view(v@)[j] != name@,
        decreases v@.len() - i,
    {
        if str_eq(v[i].as_str(), name) {
            proof {
                assert(names_view(v@)[i as int] == name@);
            }
            return true;
        }
        i += 1;
    }
    proof {
        if names_view(v@).contains(name@) {
            let j = choose|j: int| 0 <= j < names_view(v@).len() && names_view(v@)[j] == name@;
            assert(false);
        }
    }
    false
}


/// Does the (renamed) form of the well-known name `lit` equal `name`?
fn intrinsic_name_matches(m: &Mapped, lit: &str, name: &str) -> (r: bool)
    ensures
        r <==> rename(m.names.import_pairs@, lit@) == name@,
{
    let mapped = m.names.import_name(lit);
    str_eq(mapped.as_str(), name)
}

/// Is `name` the wasm-side name of some well-known intrinsic, i.e. a
/// name the intrinsic binder will bind when the module imports it?
fn is_intrinsic_bound(m: &Mapped, name: &str) -> (r: bool)
    ensures
        r <==> intrinsic_bound(m.names.import_pairs@, name@),
{
    if intrinsic_name_matches(m, "__wbindgen_object_clone_ref", name) {
        proof {
            assert(well_known_intrinsic("__wbindgen_object_clone_ref"@) && rename(m.names.import_pairs@, "__wbindgen_object_clone_ref"@)
                == name@);
        }
        return true;
    }
    if intrinsic_name_matches(m, "__wbindgen_object_drop_ref", name) {
        proof {
            assert(well_known_intrinsic("__wbindgen_object_drop_ref"@) && rename(m.names.import_pairs@, "__wbindgen_object_drop_ref"@)
                == name@);
        }
        return true;
    }
    if intrinsic_name_matches(m, "__wbindgen_string_new", name) {
        proof {
            assert(well_known_intrinsic("__wbindgen_string_new"@) && rename(m.names.import_pairs@, "__wbindgen_string_new"@)
                == name@);
        }
        return true;
    }
    if intrinsic_name_matches(m, "__wbindgen_number_new", name) {
        proof {
            assert(well_known_intrinsic("__wbindgen_number_new"@) && rename(m.names.import_pairs@, "__wbindgen_number_new"@)
                == name@);
        }
        return true;
    }
    if intrinsic_name_matches(m, "__wbindgen_number_get", name) {
        proof {
            assert(well_known_intrinsic("__wbindgen_number_get"@) && rename(m.names.import_pairs@, "__wbindgen_number_get"@)
                == name@);
        }
        return true;
    }
    if intrinsic_name_matches(m, "__wbindgen_undefined_new", name) {
        proof {
            assert(well_known_intrinsic("__wbindgen_undefined_new"@) && rename(m.names.import_pairs@, "__wbindgen_undefined_new"@)
                == name@);
        }
        return true;
    }
    if intrinsic_name_matches(m, "__wbindgen_null_new", name) {
        proof {
            assert(well_known_intrinsic("__wbindgen_null_new"@) && rename(m.names.import_pairs@, "__wbindgen_null_new"@)
                == name@);
        }
        return true;
    }
    if intrinsic_name_matches(m, "__wbindgen_is_null", name) {
        proof {
            assert(well_known_intrinsic("__wbindgen_is_null"@) && rename(m.names.import_pairs@, "__wbindgen_is_null"@)
                == name@);
        }
        return true;
    }
    if intrinsic_name_matches(m, "__wbindgen_is_undefined", name) {
        proof {
            assert(well_known_intrinsic("__wbindgen_is_undefined"@) && rename(m.names.import_pairs@, "__wbindgen_is_undefined"@)
                == name@);
        }
        return true;
    }
    if intrinsic_name_matches(m, "__wbindgen_boolean_new", name) {
        proof {
            assert(well_known_intrinsic("__wbindgen_boolean_new"@) && rename(m.names.import_pairs@, "__wbindgen_boolean_new"@)
                == name@);
        }
        return true;
    }
    if intrinsic_name_matches(m, "__wbindgen_boolean_get", name) {
        proof {
            assert(well_known_intrinsic("__wbindgen_boolean_get"@) && rename(m.names.import_pairs@, "__wbindgen_boolean_get"@)
                == name@);
        }
        return true;
    }
    if intrinsic_name_matches(m, "__wbindgen_symbol_new", name) {
        proof {
            assert(well_known_intrinsic("__wbindgen_symbol_new"@) && rename(m.names.import_pairs@, "__wbindgen_symbol_new"@)
                == name@);
        }
        return true;
    }
    if intrinsic_name_matches(m, "__wbindgen_is_symbol", name) {
        proof {
            assert(well_known_intrinsic("__wbindgen_is_symbol"@) && rename(m.names.import_pairs@, "__wbindgen_is_symbol"@)
                == name@);
        }
        return true;
    }
    if intrinsic_name_matches(m, "__wbindgen_throw", name) {
        proof {
            assert(well_known_intrinsic("__wbindgen_throw"@) && rename(m.names.import_pairs@, "__wbindgen_throw"@)
                == name@);
        }
        return true;
    }
    if intrinsic_name_matches(m, "__wbindgen_string_get", name) {
        proof {
            assert(well_known_intrinsic("__wbindgen_string_get"@) && rename(m.names.import_pairs@, "__wbindgen_string_get"@)
                == name@);
        }
        return true;
    }
    proof {
        if intrinsic_bound(m.names.import_pairs@, name@) {
            let n = choose|n: Seq<char>|
                well_known_intrinsic(n) && rename(m.names.import_pairs@, n) == name@;
            assert(false);
        }
    }
    false
}

pub open spec fn clone_ref_body(debug: bool) -> Seq<char> {
    if debug {
        "function(idx: number): number {\nif ((idx & 1) === 1)\nreturn addHeapObject(getObject(idx));\nconst val = slab[idx >> 1];\nif (typeof(val) === 'number')\nthrow new Error('corrupt slab');\nval.cnt += 1;\nreturn idx;\n}"@
    } else {
        "function(idx: number): number {\nif ((idx & 1) === 1)\nreturn addHeapObject(getObject(idx));\nconst val = slab[idx >> 1];\n(val as {cnt:number}).cnt += 1;\nreturn idx;\n}"@
    }
}

pub open spec fn number_get_body() -> Seq<char> {
    "function(n: number, invalid: number): number {\nlet obj = getObject(n);\nif (typeof(obj) === 'number')\nreturn obj;\n(new Uint8Array(memory.buffer))[invalid] = 1;\nreturn 0;\n}"@
}

pub open spec fn boolean_get_body() -> Seq<char> {
    "(i) => {\nlet v = getObject(i);\nif (typeof(v) == 'boolean') {\nreturn v ? 1 : 0;\n} else {\nreturn 2;\n}\n}"@
}

pub open spec fn symbol_new_body() -> Seq<char> {
    "(ptr, len) => {\nlet a: Symbol;\nif (ptr === 0) {\na = Symbol();\n} else {\na = Symbol(getStringFromWasm(ptr, len));\n}\nreturn addHeapObject(a);\n}"@
}

pub open spec fn throw_body() -> Seq<char> {
    "function(ptr: number, len: number) {\nthrow new Error(getStringFromWasm(ptr, len));\n}"@
}

pub open spec fn string_get_body() -> Seq<char> {
    "(i, len_ptr) => {\nlet obj = getObject(i);\nif (typeof(obj) !== 'string')\nreturn 0;\nconst [ptr, len] = passStringToWasm(obj);\n(new Uint32Array(memory.buffer))[len_ptr / 4] = len;\nreturn ptr;\n}"@
}

/// One member of the imports object: the renamed intrinsic bound to its
/// fixed implementation.
pub open spec fn bind_entry(m: Mapped, name: Seq<char>, body: Seq<char>) -> Seq<char> {
    if needed(m, name) {
        rename(m.names.import_pairs@, name) + ": "@ + body + ",\n"@
    } else {
        Seq::empty()
    }
}

/// The snippet installations of all well-known intrinsics the module
/// imports, in binding order.
pub open spec fn intrinsics_state(st: SnipState, m: Mapped, debug: bool, nodejs: bool) -> SnipState {
    let malloc = rename(m.names.export_pairs@, "__wbindgen_malloc"@);
    let s1 = if needed(m, "__wbindgen_object_clone_ref"@) {
        install_get_object(install_add_heap(st, debug), debug)
    } else {
        st
    };
    let s2 = if needed(m, "__wbindgen_object_drop_ref"@) {
        install_drop_ref(s1, debug)
    } else {
        s1
    };
    let s3 = if needed(m, "__wbindgen_string_new"@) {
        install_get_string(install_add_heap(s2, debug), nodejs)
    } else {
        s2
    };
    let s4 = if needed(m, "__wbindgen_number_new"@) {
        install_add_heap(s3, debug)
    } else {
        s3
    };
    let s5 = if needed(m, "__wbindgen_number_get"@) {
        install_memory(s4)
    } else {
        s4
    };
    let s6 = if needed(m, "__wbindgen_undefined_new"@) {
        install_add_heap(s5, debug)
    } else {
        s5
    };
    let s7 = if needed(m, "__wbindgen_null_new"@) {
        install_add_heap(s6, debug)
    } else {
        s6
    };
    let s8 = if needed(m, "__wbindgen_is_null"@) {
        install_get_object(s7, debug)
    } else {
        s7
    };
    let s9 = if needed(m, "__wbindgen_is_undefined"@) {
        install_get_object(s8, debug)
    } else {
        s8
    };
    let s10 = if needed(m, "__wbindgen_boolean_new"@) {
        install_add_heap(s9, debug)
    } else {
        s9
    };
    let s11 = if needed(m, "__wbindgen_boolean_get"@) {
        install_get_object(s10, debug)
    } else {
        s10
    };
    let s12 = if needed(m, "__wbindgen_symbol_new"@) {
        install_add_heap(install_get_string(s11, nodejs), debug)
    } else {
        s11
    };
    let s13 = if needed(m, "__wbindgen_is_symbol"@) {
        install_get_object(s12, debug)
    } else {
        s12
    };
    let s14 = if needed(m, "__wbindgen_throw"@) {
        install_get_string(s13, nodejs)
    } else {
        s13
    };
    if needed(m, "__wbindgen_string_get"@) {
        install_memory(install_get_object(install_pass_string(s14, nodejs, malloc), debug))
    } else {
        s14
    }
}

/// The members all bound intrinsics add to the imports object, in
/// binding order.
pub open spec fn intrinsics_obj(obj: Seq<char>, m: Mapped, debug: bool) -> Seq<char> {
    obj + bind_entry(m, "__wbindgen_object_clone_ref"@, clone_ref_body(debug)) + bind_entry(
        m,
        "__wbindgen_object_drop_ref"@,
        "dropRef"@,
    ) + bind_entry(m, "__wbindgen_string_new"@, "(p, l) => addHeapObject(getStringFromWasm(p, l))"@)
        + bind_entry(m, "__wbindgen_number_new"@, "addHeapObject"@) + bind_entry(
        m,
        "__wbindgen_number_get"@,
        number_get_body(),
    ) + bind_entry(m, "__wbindgen_undefined_new"@, "() => addHeapObject(undefined)"@) + bind_entry(
        m,
        "__wbindgen_null_new"@,
        "() => addHeapObject(null)"@,
    ) + bind_entry(m, "__wbindgen_is_null"@, "(idx) => getObject(idx) === null ? 1 : 0"@)
        + bind_entry(m, "__wbindgen_is_undefined"@, "(idx) => getObject(idx) === undefined ? 1 : 0"@)
        + bind_entry(m, "__wbindgen_boolean_new"@, "(v) => addHeapObject(v == 1)"@) + bind_entry(
        m,
        "__wbindgen_boolean_get"@,
        boolean_get_body(),
    ) + bind_entry(m, "__wbindgen_symbol_new"@, symbol_new_body()) + bind_entry(
        m,
        "__wbindgen_is_symbol"@,
        "(i) => typeof(getObject(i)) == 'symbol' ? 1 : 0"@,
    ) + bind_entry(m, "__wbindgen_throw"@, throw_body()) + bind_entry(
        m,
        "__wbindgen_string_get"@,
        string_get_body(),
    )
}

impl Js {
    /// Append one bound intrinsic member: the renamed name and the body.
    fn push_bind_entry(obj: &mut String, mapped_name: &String, body: &str, ghost_name: Ghost<Seq<char>>, m: &Mapped)
        requires
            mapped_name@ == rename(m.names.import_pairs@, ghost_name@),
            needed(*m, ghost_name@),
        ensures
            final(obj)@ == old(obj)@ + bind_entry(*m, ghost_name@, body@),
    {
        obj.append(mapped_name.as_str());
        obj.append(": ");
        obj.append(body);
        obj.append(",\n");
        proof {
            assert(obj@ =~= old(obj)@ + bind_entry(*m, ghost_name@, body@));
        }
    }

}

impl Js {
    fn bind_clone_ref(&mut self, obj: &mut String, m: &Mapped)
        ensures
            rest_unchanged(*old(self), *final(self)),
            final(self).snip() == (if needed(*m, "__wbindgen_object_clone_ref"@) {
                install_get_object(install_add_heap(old(self).snip(), old(self).debug), old(self).debug)
            } else {
                old(self).snip()
            }),
            final(obj)@ == old(obj)@ + bind_entry(*m, "__wbindgen_object_clone_ref"@, clone_ref_body(old(self).debug)),
    {
        if self.wasm_import_needed("__wbindgen_object_clone_ref", m) {
            self.expose_add_heap_object();
            self.expose_get_object();
            let n = m.names.import_name("__wbindgen_object_clone_ref");
            let body = if self.debug {
                "function(idx: number): number {\nif ((idx & 1) === 1)\nreturn addHeapObject(getObject(idx));\nconst val = slab[idx >> 1];\nif (typeof(val) === 'number')\nthrow new Error('corrupt slab');\nval.cnt += 1;\nreturn idx;\n}"
            } else {
                "function(idx: number): number {\nif ((idx & 1) === 1)\nreturn addHeapObject(getObject(idx));\nconst val = slab[idx >> 1];\n(val as {cnt:number}).cnt += 1;\nreturn idx;\n}"
            };
            Js::push_bind_entry(obj, &n, body, Ghost("__wbindgen_object_clone_ref"@), m);
        } else {
            proof {
                assert(old(obj)@ + bind_entry(*m, "__wbindgen_object_clone_ref"@, clone_ref_body(old(self).debug)) =~= old(obj)@);
            }
        }
    }

    fn bind_drop_ref(&mut self, obj: &mut String, m: &Mapped)
        ensures
            rest_unchanged(*old(self), *final(self)),
            final(self).snip() == (if needed(*m, "__wbindgen_object_drop_ref"@) {
                install_drop_ref(old(self).snip(), old(self).debug)
            } else {
                old(self).snip()
            }),
            final(obj)@ == old(obj)@ + bind_entry(*m, "__wbindgen_object_drop_ref"@, "dropRef"@),
    {
        if self.wasm_import_needed("__wbindgen_object_drop_ref", m) {
            self.expose_drop_ref();
            let n = m.names.import_name("__wbindgen_object_drop_ref");
            Js::push_bind_entry(obj, &n, "dropRef", Ghost("__wbindgen_object_drop_ref"@), m);
        } else {
            proof {
                assert(old(obj)@ + bind_entry(*m, "__wbindgen_object_drop_ref"@, "dropRef"@) =~= old(obj)@);
            }
        }
    }

    fn bind_string_new(&mut self, obj: &mut String, m: &Mapped)
        ensures
            rest_unchanged(*old(self), *final(self)),
            final(self).snip() == (if needed(*m, "__wbindgen_string_new"@) {
                install_get_string(install_add_heap(old(self).snip(), old(self).debug), old(self).nodejs)
            } else {
                old(self).snip()
            }),
            final(obj)@ == old(obj)@ + bind_entry(*m, "__wbindgen_string_new"@, "(p, l) => addHeapObject(getStringFromWasm(p, l))"@),
    {
        if self.wasm_import_needed("__wbindgen_string_new", m) {
            self.expose_add_heap_object();
            self.expose_get_string_from_wasm();
            let n = m.names.import_name("__wbindgen_string_new");
            Js::push_bind_entry(obj, &n, "(p, l) => addHeapObject(getStringFromWasm(p, l))", Ghost("__wbindgen_string_new"@), m);
        } else {
            proof {
                assert(old(obj)@ + bind_entry(*m, "__wbindgen_string_new"@, "(p, l) => addHeapObject(getStringFromWasm(p, l))"@) =~= old(obj)@);
            }
        }
    }

    fn bind_number_new(&mut self, obj: &mut String, m: &Mapped)
        ensures
            rest_unchanged(*old(self), *final(self)),
            final(self).snip() == (if needed(*m, "__wbindgen_number_new"@) {
                install_add_heap(old(self).snip(), old(self).debug)
            } else {
                old(self).snip()
            }),
            final(obj)@ == old(obj)@ + bind_entry(*m, "__wbindgen_number_new"@, "addHeapObject"@),
    {
        if self.wasm_import_needed("__wbindgen_number_new", m) {
            self.expose_add_heap_object();
            let n = m.names.import_name("__wbindgen_number_new");
            Js::push_bind_entry(obj, &n, "addHeapObject", Ghost("__wbindgen_number_new"@), m);
        } else {
            proof {
                assert(old(obj)@ + bind_entry(*m, "__wbindgen_number_new"@, "addHeapObject"@) =~= old(obj)@);
            }
        }
    }

    fn bind_number_get(&mut self, obj: &mut String, m: &Mapped)
        ensures
            rest_unchanged(*old(self), *final(self)),
            final(self).snip() == (if needed(*m, "__wbindgen_number_get"@) {
                install_memory(old(self).snip())
            } else {
                old(self).snip()
            }),
            final(obj)@ == old(obj)@ + bind_entry(*m, "__wbindgen_number_get"@, number_get_body()),
    {
        if self.wasm_import_needed("__wbindgen_number_get", m) {
            self.expose_global_memory();
            let n = m.names.import_name("__wbindgen_number_get");
            Js::push_bind_entry(obj, &n, "function(n: number, invalid: number): number {\nlet obj = getObject(n);\nif (typeof(obj) === 'number')\nreturn obj;\n(new Uint8Array(memory.buffer))[invalid] = 1;\nreturn 0;\n}", Ghost("__wbindgen_number_get"@), m);
        } else {
            proof {
                assert(old(obj)@ + bind_entry(*m, "__wbindgen_number_get"@, number_get_body()) =~= old(obj)@);
            }
        }
    }

    fn bind_undefined_new(&mut self, obj: &mut String, m: &Mapped)
        ensures
            rest_unchanged(*old(self), *final(self)),
            final(self).snip() == (if needed(*m, "__wbindgen_undefined_new"@) {
                install_add_heap(old(self).snip(), old(self).debug)
            } else {
                old(self).snip()
            }),
            final(obj)@ == old(obj)@ + bind_entry(*m, "__wbindgen_undefined_new"@, "() => addHeapObject(undefined)"@),
    {
        if self.wasm_import_needed("__wbindgen_undefined_new", m) {
            self.expose_add_heap_object();
            let n = m.names.import_name("__wbindgen_undefined_new");
            Js::push_bind_entry(obj, &n, "() => addHeapObject(undefined)", Ghost("__wbindgen_undefined_new"@), m);
        } else {
            proof {
                assert(old(obj)@ + bind_entry(*m, "__wbindgen_undefined_new"@, "() => addHeapObject(undefined)"@) =~= old(obj)@);
            }
        }
    }

    fn bind_null_new(&mut self, obj: &mut String, m: &Mapped)
        ensures
            rest_unchanged(*old(self), *final(self)),
            final(self).snip() == (if needed(*m, "__wbindgen_null_new"@) {
                install_add_heap(old(self).snip(), old(self).debug)
            } else {
                old(self).snip()
            }),
            final(obj)@ == old(obj)@ + bind_entry(*m, "__wbindgen_null_new"@, "() => addHeapObject(null)"@),
    {
        if self.wasm_import_needed("__wbindgen_null_new", m) {
            self.expose_add_heap_object();
            let n = m.names.import_name("__wbindgen_null_new");
            Js::push_bind_entry(obj, &n, "() => addHeapObject(null)", Ghost("__wbindgen_null_new"@), m);
        } else {
            proof {
                assert(old(obj)@ + bind_entry(*m, "__wbindgen_null_new"@, "() => addHeapObject(null)"@) =~= old(obj)@);
            }
        }
    }

    fn bind_is_null(&mut self, obj: &mut String, m: &Mapped)
        ensures
            rest_unchanged(*old(self), *final(self)),
            final(self).snip() == (if needed(*m, "__wbindgen_is_null"@) {
                install_get_object(old(self).snip(), old(self).debug)
            } else {
                old(self).snip()
            }),
            final(obj)@ == old(obj)@ + bind_entry(*m, "__wbindgen_is_null"@, "(idx) => getObject(idx) === null ? 1 : 0"@),
    {
        if self.wasm_import_needed("__wbindgen_is_null", m) {
            self.expose_get_object();
            let n = m.names.import_name("__wbindgen_is_null");
            Js::push_bind_entry(obj, &n, "(idx) => getObject(idx) === null ? 1 : 0", Ghost("__wbindgen_is_null"@), m);
        } else {
            proof {
                assert(old(obj)@ + bind_entry(*m, "__wbindgen_is_null"@, "(idx) => getObject(idx) === null ? 1 : 0"@) =~= old(obj)@);
            }
        }
    }

    fn bind_is_undefined(&mut self, obj: &mut String, m: &Mapped)
        ensures
            rest_unchanged(*old(self), *final(self)),
            final(self).snip() == (if needed(*m, "__wbindgen_is_undefined"@) {
                install_get_object(old(self).snip(), old(self).debug)
            } else {
                old(self).snip()
            }),
            final(obj)@ == old(obj)@ + bind_entry(*m, "__wbindgen_is_undefined"@, "(idx) => getObject(idx) === undefined ? 1 : 0"@),
    {
        if self.wasm_import_needed("__wbindgen_is_undefined", m) {
            self.expose_get_object();
            let n = m.names.import_name("__wbindgen_is_undefined");
            Js::push_bind_entry(obj, &n, "(idx) => getObject(idx) === undefined ? 1 : 0", Ghost("__wbindgen_is_undefined"@), m);
        } else {
            proof {
                assert(old(obj)@ + bind_entry(*m, "__wbindgen_is_undefined"@, "(idx) => getObject(idx) === undefined ? 1 : 0"@) =~= old(obj)@);
            }
        }
    }

    fn bind_boolean_new(&mut self, obj: &mut String, m: &Mapped)
        ensures
            rest_unchanged(*old(self), *final(self)),
            final(self).snip() == (if needed(*m, "__wbindgen_boolean_new"@) {
                install_add_heap(old(self).snip(), old(self).debug)
            } else {
                old(self).snip()
            }),
            final(obj)@ == old(obj)@ + bind_entry(*m, "__wbindgen_boolean_new"@, "(v) => addHeapObject(v == 1)"@),
    {
        if self.wasm_import_needed("__wbindgen_boolean_new", m) {
            self.expose_add_heap_object();
            let n = m.names.import_name("__wbindgen_boolean_new");
            Js::push_bind_entry(obj, &n, "(v) => addHeapObject(v == 1)", Ghost("__wbindgen_boolean_new"@), m);
        } else {
            proof {
                assert(old(obj)@ + bind_entry(*m, "__wbindgen_boolean_new"@, "(v) => addHeapObject(v == 1)"@) =~= old(obj)@);
            }
        }
    }

    fn bind_boolean_get(&mut self, obj: &mut String, m: &Mapped)
        ensures
            rest_unchanged(*old(self), *final(self)),
            final(self).snip() == (if needed(*m, "__wbindgen_boolean_get"@) {
                install_get_object(old(self).snip(), old(self).debug)
            } else {
                old(self).snip()
            }),
            final(obj)@ == old(obj)@ + bind_entry(*m, "__wbindgen_boolean_get"@, boolean_get_body()),
    {
        if self.wasm_import_needed("__wbindgen_boolean_get", m) {
            self.expose_get_object();
            let n = m.names.import_name("__wbindgen_boolean_get");
            Js::push_bind_entry(obj, &n, "(i) => {\nlet v = getObject(i);\nif (typeof(v) == 'boolean') {\nreturn v ? 1 : 0;\n} else {\nreturn 2;\n}\n}", Ghost("__wbindgen_boolean_get"@), m);
        } else {
            proof {
                assert(old(obj)@ + bind_entry(*m, "__wbindgen_boolean_get"@, boolean_get_body()) =~= old(obj)@);
            }
        }
    }

    fn bind_symbol_new(&mut self, obj: &mut String, m: &Mapped)
        ensures
            rest_unchanged(*old(self), *final(self)),
            final(self).snip() == (if needed(*m, "__wbindgen_symbol_new"@) {
                install_add_heap(install_get_string(old(self).snip(), old(self).nodejs), old(self).debug)
            } else {
                old(self).snip()
            }),
            final(obj)@ == old(obj)@ + bind_entry(*m, "__wbindgen_symbol_new"@, symbol_new_body()),
    {
        if self.wasm_import_needed("__wbindgen_symbol_new", m) {
            self.expose_get_string_from_wasm();
            self.expose_add_heap_object();
            let n = m.names.import_name("__wbindgen_symbol_new");
            Js::push_bind_entry(obj, &n, "(ptr, len) => {\nlet a: Symbol;\nif (ptr === 0) {\na = Symbol();\n} else {\na = Symbol(getStringFromWasm(ptr, len));\n}\nreturn addHeapObject(a);\n}", Ghost("__wbindgen_symbol_new"@), m);
        } else {
            proof {
                assert(old(obj)@ + bind_entry(*m, "__wbindgen_symbol_new"@, symbol_new_body()) =~= old(obj)@);
            }
        }
    }

    fn bind_is_symbol(&mut self, obj: &mut String, m: &Mapped)
        ensures
            rest_unchanged(*old(self), *final(self)),
            final(self).snip() == (if needed(*m, "__wbindgen_is_symbol"@) {
                install_get_object(old(self).snip(), old(self).debug)
            } else {
                old(self).snip()
            }),
            final(obj)@ == old(obj)@ + bind_entry(*m, "__wbindgen_is_symbol"@, "(i) => typeof(getObject(i)) == 'symbol' ? 1 : 0"@),
    {
        if self.wasm_import_needed("__wbindgen_is_symbol", m) {
            self.expose_get_object();
            let n = m.names.import_name("__wbindgen_is_symbol");
            Js::push_bind_entry(obj, &n, "(i) => typeof(getObject(i)) == 'symbol' ? 1 : 0", Ghost("__wbindgen_is_symbol"@), m);
        } else {
            proof {
                assert(old(obj)@ + bind_entry(*m, "__wbindgen_is_symbol"@, "(i) => typeof(getObject(i)) == 'symbol' ? 1 : 0"@) =~= old(obj)@);
            }
        }
    }

    fn bind_throw_intr(&mut self, obj: &mut String, m: &Mapped)
        ensures
            rest_unchanged(*old(self), *final(self)),
            final(self).snip() == (if needed(*m, "__wbindgen_throw"@) {
                install_get_string(old(self).snip(), old(self).nodejs)
            } else {
                old(self).snip()
            }),
            final(obj)@ == old(obj)@ + bind_entry(*m, "__wbindgen_throw"@, throw_body()),
    {
        if self.wasm_import_needed("__wbindgen_throw", m) {
            self.expose_get_string_from_wasm();
            let n = m.names.import_name("__wbindgen_throw");
            Js::push_bind_entry(obj, &n, "function(ptr: number, len: number) {\nthrow new Error(getStringFromWasm(ptr, len));\n}", Ghost("__wbindgen_throw"@), m);
        } else {
            proof {
                assert(old(obj)@ + bind_entry(*m, "__wbindgen_throw"@, throw_body()) =~= old(obj)@);
            }
        }
    }

    fn bind_string_get(&mut self, obj: &mut String, m: &Mapped)
        ensures
            rest_unchanged(*old(self), *final(self)),
            final(self).snip() == (if needed(*m, "__wbindgen_string_get"@) {
                install_memory(install_get_object(install_pass_string(old(self).snip(), old(self).nodejs, rename(m.names.export_pairs@, "__wbindgen_malloc"@)), old(self).debug))
            } else {
                old(self).snip()
            }),
            final(obj)@ == old(obj)@ + bind_entry(*m, "__wbindgen_string_get"@, string_get_body()),
    {
        if self.wasm_import_needed("__wbindgen_string_get", m) {
            self.expose_pass_string_to_wasm(m);
            self.expose_get_object();
            self.expose_global_memory();
            let n = m.names.import_name("__wbindgen_string_get");
            Js::push_bind_entry(obj, &n, "(i, len_ptr) => {\nlet obj = getObject(i);\nif (typeof(obj) !== 'string')\nreturn 0;\nconst [ptr, len] = passStringToWasm(obj);\n(new Uint32Array(memory.buffer))[len_ptr / 4] = len;\nreturn ptr;\n}", Ghost("__wbindgen_string_get"@), m);
        } else {
            proof {
                assert(old(obj)@ + bind_entry(*m, "__wbindgen_string_get"@, string_get_body()) =~= old(obj)@);
            }
        }
    }

    /// Bind every well-known intrinsic the wasm module imports: install
    /// its snippets and add its fixed implementation to the imports
    /// object, in a fixed binding order.
    #[verifier::rlimit(100)]
    #[verifier::spinoff_prover]
    fn bind_intrinsics(&mut self, obj: &mut String, m: &Mapped)
        ensures
            final(self).snip() == intrinsics_state(
                old(self).snip(),
                *m,
                old(self).debug,
                old(self).nodejs,
            ),
            final(obj)@ == intrinsics_obj(old(obj)@, *m, old(self).debug),
            rest_unchanged(*old(self), *final(self)),
    {
        self.bind_clone_ref(obj, m);
        self.bind_drop_ref(obj, m);
        self.bind_string_new(obj, m);
        self.bind_number_new(obj, m);
        self.bind_number_get(obj, m);
        self.bind_undefined_new(obj, m);
        self.bind_null_new(obj, m);
        self.bind_is_null(obj, m);
        self.bind_is_undefined(obj, m);
        self.bind_boolean_new(obj, m);
        self.bind_boolean_get(obj, m);
        self.bind_symbol_new(obj, m);
        self.bind_is_symbol(obj, m);
        self.bind_throw_intr(obj, m);
        self.bind_string_get(obj, m);
        proof {
            assert(obj@ =~= intrinsics_obj(old(obj)@, *m, old(self).debug));
        }
    }
}


/// The export triple of the debug-only emptiness check.
pub open spec fn assert_export_triple() -> (Seq<char>, Seq<char>, Seq<char>) {
    ("assertHeapAndStackEmpty"@, assert_empty_body(), "assertHeapAndStackEmpty(): void;\n"@)
}

/// The complete assembled output, as a function of the generator state
/// after the program walk, the module view with its rename tables, and
/// the program's declared imports.
pub open spec fn output_text(js0: Js, m: Mapped, p: Program) -> Seq<char> {
    let dbg = js0.debug;
    let njs = js0.nodejs;
    let ep = m.names.export_pairs@;
    let ip = m.names.import_pairs@;
    let st1 = if dbg {
        install_stack(install_slab(js0.snip()))
    } else {
        js0.snip()
    };
    let exps = exports_view(js0.exports@) + (if dbg {
        seq![assert_export_triple()]
    } else {
        Seq::empty()
    });
    let mid = SnipState {
        exposed: st1.exposed,
        globals: st1.globals + classes_join(js0.classes@, js0.classes@.len() as int),
    };
    let st2 = install_imports_pref(mid, p, p.imports@.len() as int, m, dbg, njs);
    let st3 = intrinsics_state(st2, m, dbg, njs);
    let e_list = crate::module_view::ts_exports_pref(m.module, m.module.exports@.len() as int);
    let i_list = crate::module_view::ts_imports_pref(m.module, m.module.imports@.len() as int);
    let bound = names_view(js0.wasm_exports_bound@);
    let anyx = any_extra_export(e_list, ep, bound);
    let bimp = bound_imports_pref(p, p.imports@.len() as int, m);
    let anyi = any_extra_import(i_list, ip, bimp);
    let exports_obj = "{\nmodule,\ninstance,\n"@ + exports_obj_pref(exps, exps.len() as int) + (
    if anyx {
        "extra: {\n"@ + extra_exports_obj_pref(e_list, e_list.len() as int, ep, bound) + "},\n"@
    } else {
        Seq::<char>::empty()
    }) + "}"@;
    let exports_iface = exports_iface_pref(exps, exps.len() as int) + (if anyx {
        "extra: ExtraExports;\n"@
    } else {
        Seq::<char>::empty()
    });
    let extra_exp_iface = if anyx {
        "export interface ExtraExports {\n"@ + extra_exports_iface_pref(
            e_list,
            e_list.len() as int,
            ep,
            bound,
        ) + "}\n"@
    } else {
        Seq::<char>::empty()
    };
    let imports_obj_mid = imports_obj_pref(p, p.imports@.len() as int, m)
        + extra_imports_obj_pref(i_list, i_list.len() as int, ip, bimp);
    let imports_obj = intrinsics_obj(imports_obj_mid, m, dbg);
    let imports_iface = imports_iface_pref(p, p.imports@.len() as int, m) + (if anyi {
        "env: ExtraImports;\n"@
    } else {
        Seq::<char>::empty()
    });
    let extra_imp_iface = if anyi {
        "export interface ExtraImports {\n"@ + extra_imports_iface_pref(
            i_list,
            i_list.len() as int,
            ip,
            bimp,
        ) + "}\n"@
    } else {
        Seq::<char>::empty()
    };
    let writes = writes_text(st3.exposed);
    "/* tslint:disable */\n"@ + st3.globals
        + "\ninterface WasmImportsTop {\nenv: WasmImports,\n}\n\ninterface WasmImports {\n"@
        + join_pref(i_list, i_list.len() as int) + "}\n\ninterface WasmExports {\n"@ + join_pref(
        e_list,
        e_list.len() as int,
    ) + "}\n\nexport interface Imports {\n"@ + imports_iface + "}\n\n"@ + extra_imp_iface
        + "\nexport interface Exports {\nmodule: WebAssembly.Module;\ninstance: WebAssembly.Instance;\n"@
        + exports_iface + "}\n\n"@ + extra_exp_iface
        + "\nfunction xform(obj: WebAssembly.ResultObject): Exports {\nlet { module, instance } = obj;\nlet exports: WasmExports = instance.exports;\n"@
        + writes + "return "@ + exports_obj
        + ";\n}\nexport function instantiate(bytes: any, _imports: Imports): Promise<Exports> {\nlet wasm_imports: WasmImportsTop = {\nenv: {\n"@
        + imports_obj
        + "},\n};\nreturn WebAssembly.instantiate(bytes, wasm_imports).then(xform);\n}\n"@
}

impl Js {
    /// In debug mode: install the slab and stack globals and register
    /// the `assertHeapAndStackEmpty` export.
    fn push_assert_export(&mut self)
        ensures
            old(self).debug ==> final(self).snip() == install_stack(
                install_slab(old(self).snip()),
            ) && exports_view(final(self).exports@) == exports_view(old(self).exports@).push(
                assert_export_triple(),
            ),
            !old(self).debug ==> *final(self) == *old(self),
            final(self).wasm_exports_bound@ == old(self).wasm_exports_bound@,
            final(self).classes@ == old(self).classes@,
            final(self).nodejs == old(self).nodejs,
            final(self).debug == old(self).debug,
    {
        if self.debug {
            self.expose_global_slab();
            self.expose_global_stack();
            let body =
                "function(): void {\nif (stack.length > 0)\nthrow new Error('stack is not empty');\nfor (let i = 0; i < slab.length; i++) {\nif (typeof(slab[i]) !== 'number')\nthrow new Error('slab is not empty');\n}\n}";
            self.exports.push(
                (
                    "assertHeapAndStackEmpty".to_owned(),
                    body.to_owned(),
                    "assertHeapAndStackEmpty(): void;\n".to_owned(),
                ),
            );
            proof {
                assert(exports_view(self.exports@) =~= exports_view(old(self).exports@).push(
                    assert_export_triple(),
                ));
            }
        }
    }

    /// Surface the wasm exports the descriptor did not bind under the
    /// `extra` namespace.
    fn collect_extra_exports(
        &self,
        m: &Mapped,
        list: &Vec<(String, String)>,
        obj: &mut String,
        iface: &mut String,
    ) -> (extra: String)
        requires
            extras_exports_ok(
                pair_views(list@),
                m.names.export_pairs@,
                names_view(self.wasm_exports_bound@),
            ),
        ensures
            ({
                let e = pair_views(list@);
                let ep = m.names.export_pairs@;
                let bound = names_view(self.wasm_exports_bound@);
                let anyx = any_extra_export(e, ep, bound);
                &&& final(obj)@ == old(obj)@ + (if anyx {
                    "extra: {\n"@ + extra_exports_obj_pref(e, e.len() as int, ep, bound) + "},\n"@
                } else {
                    Seq::<char>::empty()
                })
                &&& final(iface)@ == old(iface)@ + (if anyx {
                    "extra: ExtraExports;\n"@
                } else {
                    Seq::<char>::empty()
                })
                &&& extra@ == (if anyx {
                    "export interface ExtraExports {\n"@ + extra_exports_iface_pref(
                        e,
                        e.len() as int,
                        ep,
                        bound,
                    ) + "}\n"@
                } else {
                    Seq::<char>::empty()
                })
            }),
    {
        let ghost e = pair_views(list@);
        let ghost ep = m.names.export_pairs@;
        let ghost bound = names_view(self.wasm_exports_bound@);
        let mut any = false;
        let mut k: usize = 0;
        while k < list.len()
            invariant
                k <= list@.len(),
                e == pair_views(list@),
                ep == m.names.export_pairs@,
                bound == names_view(self.wasm_exports_bound@),
                !any ==> forall|j: int| 0 <= j < k ==> !extra_export_at(#[trigger] e[j], ep, bound),
                any ==> any_extra_export(e, ep, bound),
            decreases list@.len() - k,
        {
            let orig = m.names.orig_export_name(list[k].0.as_str());
            if !starts_with_prefix(orig.as_str(), "__wbindgen") && !self.bound_contains(
                orig.as_str(),
            ) {
                any = true;
                proof {
                    assert(extra_export_at(e[k as int], ep, bound));
                }
            }
            k += 1;
        }
        if !any {
            proof {
                if any_extra_export(e, ep, bound) {
                    let j = choose|j: int| 0 <= j < e.len() && extra_export_at(#[trigger] e[j], ep, bound);
                    assert(false);
                }
            }
            return String::new();
        }
        obj.append("extra: {\n");
        iface.append("extra: ExtraExports;\n");
        let mut extra = "export interface ExtraExports {\n".to_owned();
        let ghost obj_head = obj@;
        let mut i: usize = 0;
        while i < list.len()
            invariant
                i <= list@.len(),
                e == pair_views(list@),
                ep == m.names.export_pairs@,
                bound == names_view(self.wasm_exports_bound@),
                obj@ == obj_head + extra_exports_obj_pref(e, i as int, ep, bound),
                extra@ == "export interface ExtraExports {\n"@ + extra_exports_iface_pref(
                    e,
                    i as int,
                    ep,
                    bound,
                ),
                extras_exports_ok(e, ep, bound),
            decreases list@.len() - i,
        {
            let orig = m.names.orig_export_name(list[i].0.as_str());
            if !starts_with_prefix(orig.as_str(), "__wbindgen") && !self.bound_contains(
                orig.as_str(),
            ) {
                obj.append(list[i].0.as_str());
                obj.append(":exports.");
                obj.append(list[i].0.as_str());
                obj.append(",\n");
                extra.append(list[i].1.as_str());
                extra.append("\n");
            }
            proof {
                assert(obj@ =~= obj_head + extra_exports_obj_pref(e, i + 1, ep, bound));
                assert(extra@ =~= "export interface ExtraExports {\n"@
                    + extra_exports_iface_pref(e, i + 1, ep, bound));
            }
            i += 1;
        }
        obj.append("},\n");
        extra.append("}\n");
        extra
    }

    /// Generate the shim of every declared import the wasm module still
    /// imports, registering each under its (renamed) wasm-side name.
    fn gen_program_imports(
        &mut self,
        program: &Program,
        m: &Mapped,
        obj: &mut String,
        iface: &mut String,
    ) -> (r: Result<Vec<String>, GenError>)
        requires
            prog_import_sizes_ok(*program),
        ensures
            r is Ok <==> prog_imports_ok(*program, *m),
            final(self).nodejs == old(self).nodejs,
            final(self).debug == old(self).debug,
            r is Ok ==> ({
                &&& final(self).snip() == install_imports_pref(
                    old(self).snip(),
                    *program,
                    program.imports@.len() as int,
                    *m,
                    old(self).debug,
                    old(self).nodejs,
                )
                &&& final(obj)@ == old(obj)@ + imports_obj_pref(
                    *program,
                    program.imports@.len() as int,
                    *m,
                )
                &&& final(iface)@ == old(iface)@ + imports_iface_pref(
                    *program,
                    program.imports@.len() as int,
                    *m,
                )
                &&& names_view(r->Ok_0@) == bound_imports_pref(
                    *program,
                    program.imports@.len() as int,
                    *m,
                )
                &&& rest_unchanged(*old(self), *final(self))
            }),
    {
        let ghost st0 = old(self).snip();
        let ghost dbg = self.debug;
        let ghost njs = self.nodejs;
        let mut bound: Vec<String> = Vec::new();
        let mut i: usize = 0;
        while i < program.imports.len()
            invariant
                i <= program.imports@.len(),
                prog_import_sizes_ok(*program),
                forall|j: int|
                    0 <= j < i && import_present(#[trigger] program.imports@[j], *m) ==> (
                    import_args_ok(program.imports@[j].arguments@) && import_ret_ok(
                        program.imports@[j].ret,
                    )),
                self.snip() == install_imports_pref(st0, *program, i as int, *m, dbg, njs),
                obj@ == old(obj)@ + imports_obj_pref(*program, i as int, *m),
                iface@ == old(iface)@ + imports_iface_pref(*program, i as int, *m),
                names_view(bound@) == bound_imports_pref(*program, i as int, *m),
                self.debug == dbg,
                self.nodejs == njs,
                rest_unchanged(*old(self), *self),
                dbg == old(self).debug,
                njs == old(self).nodejs,
                st0 == old(self).snip(),
            decreases program.imports@.len() - i,
        {
            let f = &program.imports[i];
            if self.wasm_import_needed(f.name.as_str(), m) {
                let mapped = m.names.import_name(f.name.as_str());
                bound.push(mapped.clone());
                let pair = match self.generate_import(f) {
                    Ok(p) => p,
                    Err(e) => {
                        return Err(e);
                    },
                };
                obj.append(mapped.as_str());
                obj.append(":");
                obj.append(pair.0.as_str());
                obj.append(",\n");
                iface.append(pair.1.as_str());
                iface.append("\n");
            }
            proof {
                assert(obj@ =~= old(obj)@ + imports_obj_pref(*program, i + 1, *m));
                assert(iface@ =~= old(iface)@ + imports_iface_pref(*program, i + 1, *m));
                assert(names_view(bound@) =~= bound_imports_pref(*program, i + 1, *m));
            }
            i += 1;
        }
        Ok(bound)
    }

    /// The capture statements of the post-instantiation hook: only the
    /// runtime slots actually in use are filled.
    fn compute_writes(&self) -> (r: String)
        ensures
            r@ == writes_text(self.exposed_globals@),
    {
        let mut w = String::new();
        if self.has_snippet(Snippet::Memory) {
            w.append("memory = exports.memory;\n");
        }
        if self.has_snippet(Snippet::WasmExports) {
            w.append("wasm_exports = exports;\n");
        }
        proof {
            assert(w@ =~= writes_text(self.exposed_globals@));
        }
        w
    }
}

/// Surface the wasm imports that neither a declared-import shim nor the
/// intrinsic binder will provide under the `env` namespace — including
/// internal-prefixed imports outside the well-known set, which the user
/// must supply.
fn collect_extra_imports(
    m: &Mapped,
    list: &Vec<(String, String)>,
    obj: &mut String,
    iface: &mut String,
    bound: &Vec<String>,
) -> (extra: String)
    requires
        extras_imports_ok(pair_views(list@), m.names.import_pairs@, names_view(bound@)),
    ensures
        ({
            let e = pair_views(list@);
            let ip = m.names.import_pairs@;
            let b = names_view(bound@);
            let anyi = any_extra_import(e, ip, b);
            &&& final(obj)@ == old(obj)@ + extra_imports_obj_pref(e, e.len() as int, ip, b)
            &&& final(iface)@ == old(iface)@ + (if anyi {
                "env: ExtraImports;\n"@
            } else {
                Seq::<char>::empty()
            })
            &&& extra@ == (if anyi {
                "export interface ExtraImports {\n"@ + extra_imports_iface_pref(
                    e,
                    e.len() as int,
                    ip,
                    b,
                ) + "}\n"@
            } else {
                Seq::<char>::empty()
            })
        }),
{
    let ghost e = pair_views(list@);
    let ghost ip = m.names.import_pairs@;
    let ghost b = names_view(bound@);
    let mut any = false;
    let mut k: usize = 0;
    while k < list.len()
        invariant
            k <= list@.len(),
            e == pair_views(list@),
            ip == m.names.import_pairs@,
            b == names_view(bound@),
            !any ==> forall|j: int| 0 <= j < k ==> !extra_import_at(#[trigger] e[j], ip, b),
            any ==> any_extra_import(e, ip, b),
        decreases list@.len() - k,
    {
        if !name_list_contains(bound, list[k].0.as_str()) && !is_intrinsic_bound(
            m,
            list[k].0.as_str(),
        ) {
            any = true;
            proof {
                assert(extra_import_at(e[k as int], ip, b));
            }
        }
        k += 1;
    }
    if !any {
        proof {
            if any_extra_import(e, ip, b) {
                let j = choose|j: int| 0 <= j < e.len() && extra_import_at(#[trigger] e[j], ip, b);
                assert(false);
            }
            lemma_extra_imports_obj_empty(e, e.len() as int, ip, b);
            assert(old(obj)@ + extra_imports_obj_pref(e, e.len() as int, ip, b) =~= old(obj)@);
        }
        return String::new();
    }
    iface.append("env: ExtraImports;\n");
    let mut extra = "export interface ExtraImports {\n".to_owned();
    let ghost obj_head = old(obj)@;
    let mut i: usize = 0;
    while i < list.len()
        invariant
            i <= list@.len(),
            e == pair_views(list@),
            ip == m.names.import_pairs@,
            b == names_view(bound@),
            obj@ == obj_head + extra_imports_obj_pref(e, i as int, ip, b),
            extra@ == "export interface ExtraImports {\n"@ + extra_imports_iface_pref(
                e,
                i as int,
                ip,
                b,
            ),
            extras_imports_ok(e, ip, b),
        decreases list@.len() - i,
    {
        if !name_list_contains(bound, list[i].0.as_str()) && !is_intrinsic_bound(
            m,
            list[i].0.as_str(),
        ) {
            obj.append(list[i].0.as_str());
            obj.append(":_imports.env.");
            obj.append(list[i].0.as_str());
            obj.append(",\n");
            extra.append(list[i].1.as_str());
            extra.append("\n");
        }
        proof {
            assert(obj@ =~= obj_head + extra_imports_obj_pref(e, i + 1, ip, b));
            assert(extra@ =~= "export interface ExtraImports {\n"@ + extra_imports_iface_pref(
                e,
                i + 1,
                ip,
                b,
            ));
        }
        i += 1;
    }
    extra.append("}\n");
    extra
}

/// Empty when no entry is an extra.
proof fn lemma_extra_imports_obj_empty(e: Seq<(Seq<char>, Seq<char>)>, n: int, ip: Seq<(String, String)>, b: Seq<Seq<char>>)
    requires
        n <= e.len(),
        forall|j: int| 0 <= j < e.len() ==> !extra_import_at(#[trigger] e[j], ip, b),
    ensures
        extra_imports_obj_pref(e, n, ip, b) == Seq::<char>::empty(),
    decreases n,
{
    if n > 0 {
        lemma_extra_imports_obj_empty(e, n - 1, ip, b);
        assert(extra_imports_obj_pref(e, n, ip, b) =~= Seq::<char>::empty());
    }
}

/// One typed interface line per entry, newline-terminated.
fn join_lines(list: &Vec<(String, String)>) -> (r: String)
    ensures
        r@ == join_pref(pair_views(list@), list@.len() as int),
{
    let mut out = String::new();
    let mut i: usize = 0;
    while i < list.len()
        invariant
            i <= list@.len(),
            out@ == join_pref(pair_views(list@), i as int),
        decreases list@.len() - i,
    {
        out.append(list[i].1.as_str());
        out.append("\n");
        proof {
            assert(out@ =~= join_pref(pair_views(list@), i + 1));
        }
        i += 1;
    }
    out
}


impl Js {
    /// Assemble the complete output: the runtime globals region, the
    /// typed wasm-level interfaces, the typed high-level interfaces for
    /// imports and exports (with `extra`/`env` passthroughs for whatever
    /// the descriptor did not bind), the bound intrinsics and the
    /// `instantiate` entry point.
    ///
    /// Fails exactly when a declared import that the module still
    /// imports has a type with no receiving protocol.
    #[verifier::rlimit(100)]
    #[verifier::spinoff_prover]
    pub fn to_string(&mut self, m: &Mapped, program: &Program) -> (r: Result<String, GenError>)
        requires
            m.module.wf(),
            prog_import_sizes_ok(*program),
            extras_exports_ok(
                crate::module_view::ts_exports_pref(m.module, m.module.exports@.len() as int),
                m.names.export_pairs@,
                names_view(old(self).wasm_exports_bound@),
            ),
            extras_imports_ok(
                crate::module_view::ts_imports_pref(m.module, m.module.imports@.len() as int),
                m.names.import_pairs@,
                bound_imports_pref(*program, program.imports@.len() as int, *m),
            ),
        ensures
            r is Ok <==> prog_imports_ok(*program, *m),
            final(self).nodejs == old(self).nodejs,
            final(self).debug == old(self).debug,
            r is Ok ==> r->Ok_0@ == output_text(*old(self), *m, *program),
    {
        let ghost js0 = *self;
        self.push_assert_export();
        self.append_classes();
        let wasm_exports_list = m.module.typescript_wasm_exports();
        let mut exports_obj = "{\nmodule,\ninstance,\n".to_owned();
        let pair = self.build_exports_object();
        let core_obj = pair.0;
        let mut exports_iface = pair.1;
        exports_obj.append(core_obj.as_str());
        let extra_exp_iface = self.collect_extra_exports(
            m,
            &wasm_exports_list,
            &mut exports_obj,
            &mut exports_iface,
        );
        exports_obj.append("}");
        let wasm_imports_list = m.module.typescript_wasm_imports();
        let mut imports_obj = String::new();
        let mut imports_iface = String::new();
        let bound_imports = match self.gen_program_imports(
            program,
            m,
            &mut imports_obj,
            &mut imports_iface,
        ) {
            Ok(b) => b,
            Err(e) => {
                return Err(e);
            },
        };
        let extra_imp_iface = collect_extra_imports(
            m,
            &wasm_imports_list,
            &mut imports_obj,
            &mut imports_iface,
            &bound_imports,
        );
        self.bind_intrinsics(&mut imports_obj, m);
        let writes = self.compute_writes();
        let ji = join_lines(&wasm_imports_list);
        let je = join_lines(&wasm_exports_list);
        let mut out = "/* tslint:disable */\n".to_owned();
        out.append(self.globals.as_str());
        out.append(
            "\ninterface WasmImportsTop {\nenv: WasmImports,\n}\n\ninterface WasmImports {\n",
        );
        out.append(ji.as_str());
        out.append("}\n\ninterface WasmExports {\n");
        out.append(je.as_str());
        out.append("}\n\nexport interface Imports {\n");
        out.append(imports_iface.as_str());
        out.append("}\n\n");
        out.append(extra_imp_iface.as_str());
        out.append(
            "\nexport interface Exports {\nmodule: WebAssembly.Module;\ninstance: WebAssembly.Instance;\n",
        );
        out.append(exports_iface.as_str());
        out.append("}\n\n");
        out.append(extra_exp_iface.as_str());
        out.append(
            "\nfunction xform(obj: WebAssembly.ResultObject): Exports {\nlet { module, instance } = obj;\nlet exports: WasmExports = instance.exports;\n",
        );
        out.append(writes.as_str());
        out.append("return ");
        out.append(exports_obj.as_str());
        out.append(
            ";\n}\nexport function instantiate(bytes: any, _imports: Imports): Promise<Exports> {\nlet wasm_imports: WasmImportsTop = {\nenv: {\n",
        );
        out.append(imports_obj.as_str());
        out.append("},\n};\nreturn WebAssembly.instantiate(bytes, wasm_imports).then(xform);\n}\n");
        proof {
            let dbg = js0.debug;
            let njs = js0.nodejs;
            let ep = m.names.export_pairs@;
            let ip = m.names.import_pairs@;
            let st1 = if dbg {
                install_stack(install_slab(js0.snip()))
            } else {
                js0.snip()
            };
            let exps = exports_view(js0.exports@) + (if dbg {
                seq![assert_export_triple()]
            } else {
                Seq::empty()
            });
            let mid = SnipState {
                exposed: st1.exposed,
                globals: st1.globals + classes_join(js0.classes@, js0.classes@.len() as int),
            };
            let st2 = install_imports_pref(mid, *program, program.imports@.len() as int, *m, dbg, njs);
            let st3 = intrinsics_state(st2, *m, dbg, njs);
            let e_list = crate::module_view::ts_exports_pref(m.module, m.module.exports@.len() as int);
            let i_list = crate::module_view::ts_imports_pref(m.module, m.module.imports@.len() as int);
            let bound = names_view(js0.wasm_exports_bound@);
            let anyx = any_extra_export(e_list, ep, bound);
            let bimp = bound_imports_pref(*program, program.imports@.len() as int, *m);
            let anyi = any_extra_import(i_list, ip, bimp);
            assert(exports_view(js0.exports@).push(assert_export_triple()) =~= exports_view(
                js0.exports@,
            ) + seq![assert_export_triple()]);
            assert(exports_view(js0.exports@) + Seq::<(Seq<char>, Seq<char>, Seq<char>)>::empty()
                =~= exports_view(js0.exports@));
            assert(self.snip() == st3);
            assert(exports_obj@ =~= "{\nmodule,\ninstance,\n"@ + exports_obj_pref(
                exps,
                exps.len() as int,
            ) + (if anyx {
                "extra: {\n"@ + extra_exports_obj_pref(e_list, e_list.len() as int, ep, bound)
                    + "},\n"@
            } else {
                Seq::<char>::empty()
            }) + "}"@);
            assert(exports_iface@ =~= exports_iface_pref(exps, exps.len() as int) + (if anyx {
                "extra: ExtraExports;\n"@
            } else {
                Seq::<char>::empty()
            }));
            let imports_obj_mid = imports_obj_pref(*program, program.imports@.len() as int, *m)
                + extra_imports_obj_pref(i_list, i_list.len() as int, ip, bimp);
            assert(imports_obj@ =~= intrinsics_obj(imports_obj_mid, *m, dbg));
            assert(imports_iface@ =~= imports_iface_pref(*program, program.imports@.len() as int, *m)
                + (if anyi {
                "env: ExtraImports;\n"@
            } else {
                Seq::<char>::empty()
            }));
            assert(writes@ == writes_text(st3.exposed));
            assert(out@ =~= output_text(js0, *m, *program));
        }
        Ok(out)
    }
}

} // verus!
