//! Read-only view of the wasm module, reduced to plain values: imports,
//! exports, function types and the memory export. The wasm parser itself
//! is an external collaborator; whoever drives the generator converts the
//! parsed module into this view first.

use vstd::prelude::*;
use vstd::string::*;
use crate::text::str_eq;
use crate::text::indexed_name;
use crate::text::make_indexed_name;

verus! {

/// A wasm function type: all wasm-level parameters and results are
/// integers, so only the parameter count and whether a value comes back
/// matter.
pub struct FuncType {
    pub params: usize,
    pub has_ret: bool,
}

/// What an import entry imports.
pub enum ImportKind {
    /// A function, by index into the type section.
    Function(usize),
    /// Anything else (table, memory, global).
    Other,
}

/// One import entry of the module.
pub struct ImportEntry {
    pub module: String,
    pub field: String,
    pub kind: ImportKind,
}

/// What an export entry exposes.
pub enum ExportKind {
    /// A function, by function index (imported functions first).
    Function(usize),
    /// A linear memory.
    Memory,
    /// Anything else.
    Other,
}

/// One export entry of the module.
pub struct ExportEntry {
    pub field: String,
    pub kind: ExportKind,
}

/// The module view: entries in module order, a type table, and the type
/// index of each local function.
pub struct ModuleView {
    pub imports: Vec<ImportEntry>,
    pub types: Vec<FuncType>,
    pub functions: Vec<usize>,
    pub exports: Vec<ExportEntry>,
}

/// Number of imported functions among the first `n` import entries.
pub open spec fn fn_import_count(imports: Seq<ImportEntry>, n: int) -> int
    decreases n,
{
    if n <= 0 {
        0
    } else {
        fn_import_count(imports, n - 1) + if imports[n - 1].kind is Function {
            1int
        } else {
            0int
        }
    }
}

impl ModuleView {
    /// Number of imported functions of the whole module.
    pub open spec fn spec_fn_imports(self) -> int {
        fn_import_count(self.imports@, self.imports@.len() as int)
    }

    /// Internal consistency: every import sits in the `env` namespace
    /// (the single namespace the glue passes to instantiation), every
    /// type index is in range, and every function export resolves to a
    /// local function.
    pub open spec fn wf(self) -> bool {
        &&& forall|i: int|
            0 <= i < self.imports@.len() ==> (#[trigger] self.imports@[i]).module@ == "env"@
        &&& forall|i: int|
            0 <= i < self.imports@.len() && (#[trigger] self.imports@[i]).kind is Function
                ==> self.imports@[i].kind->Function_0 < self.types@.len()
        &&& forall|i: int| 0 <= i < self.types@.len() ==> (#[trigger] self.types@[i]).params <= u32::MAX
        &&& forall|i: int|
            0 <= i < self.functions@.len() ==> (#[trigger] self.functions@[i]) < self.types@.len()
        &&& forall|i: int|
            0 <= i < self.exports@.len() && (#[trigger] self.exports@[i]).kind is Function ==> ({
                let f = self.exports@[i].kind->Function_0 as int;
                &&& self.spec_fn_imports() <= f
                &&& f - self.spec_fn_imports() < self.functions@.len()
            })
    }

    /// The function type behind a function export, resolved through the
    /// function and type sections.
    pub open spec fn export_fn_type(self, f: int) -> FuncType {
        self.types@[self.functions@[f - self.spec_fn_imports()] as int]
    }

    /// Does the module import `field` (in the `env` namespace)?
    pub open spec fn has_env_import(self, field: Seq<char>) -> bool {
        exists|k: int|
            0 <= k < self.imports@.len() && (#[trigger] self.imports@[k]).module@ == "env"@
                && self.imports@[k].field@ == field && self.imports@[k].kind is Function
    }

    /// Count the imported functions.
    pub fn fn_imports(&self) -> (n: usize)
        ensures
            n == self.spec_fn_imports(),
    {
        let mut n: usize = 0;
        let mut i: usize = 0;
        while i < self.imports.len()
            invariant
                i <= self.imports@.len(),
                n == fn_import_count(self.imports@, i as int),
                n <= i,
            decreases self.imports@.len() - i,
        {
            match &self.imports[i].kind {
                ImportKind::Function(_) => {
                    n += 1;
                },
                ImportKind::Other => {},
            }
            i += 1;
        }
        n
    }

    /// Is `field` among the module's function imports (all of which sit
    /// in the `env` namespace)?
    pub fn has_import(&self, field: &str) -> (r: bool)
        ensures
            r == self.has_env_import(field@),
    {
        let mut i: usize = 0;
        while i < self.imports.len()
            invariant
                i <= self.imports@.len(),
                forall|k: int|
                    0 <= k < i ==> !((#[trigger] self.imports@[k]).module@ == "env"@
                        && self.imports@[k].field@ == field@ && self.imports@[k].kind is Function),
            decreases self.imports@.len() - i,
        {
            let e = &self.imports[i];
            let is_fn = match &e.kind {
                ImportKind::Function(_) => true,
                ImportKind::Other => false,
            };
            if is_fn && str_eq(e.module.as_str(), "env") && str_eq(e.field.as_str(), field) {
                return true;
            }
            i += 1;
        }
        false
    }
}

/// The parameter list of a typed wasm-level signature: `arg0: number,
/// arg1: number, ...` for the first `n` parameters.
pub open spec fn wasm_params_text(n: int) -> Seq<char>
    decreases n,
{
    if n <= 0 {
        Seq::empty()
    } else {
        wasm_params_text(n - 1) + (if n - 1 > 0 {
            ", "@
        } else {
            Seq::<char>::empty()
        }) + indexed_name("arg"@, (n - 1) as nat) + ": number"@
    }
}

/// The typed interface line of one wasm-level function.
pub open spec fn wasm_sig_text(name: Seq<char>, ty: FuncType) -> Seq<char> {
    name + "("@ + wasm_params_text(ty.params as int) + "): "@ + (if ty.has_ret {
        "number"@
    } else {
        "void"@
    }) + ";"@
}

/// The typed interface line of a memory export.
pub open spec fn memory_sig_text(name: Seq<char>) -> Seq<char> {
    name + ": WebAssembly.Memory;"@
}

/// Build the parameter list for `n` integer parameters.
pub fn make_wasm_params(n: usize) -> (r: String)
    requires
        n <= u32::MAX,
    ensures
        r@ == wasm_params_text(n as int),
{
    let mut out = String::new();
    let mut i: usize = 0;
    while i < n
        invariant
            i <= n,
            n <= u32::MAX,
            out@ == wasm_params_text(i as int),
        decreases n - i,
    {
        if i > 0 {
            out.append(", ");
        }
        let name = make_indexed_name("arg", i as u32);
        out.append(name.as_str());
        out.append(": number");
        proof {
            assert(out@ =~= wasm_params_text(i + 1));
        }
        i += 1;
    }
    out
}

/// Build the typed interface line of one wasm-level function.
pub fn make_wasm_sig(name: &str, params: usize, has_ret: bool) -> (r: String)
    requires
        params <= u32::MAX,
    ensures
        r@ == wasm_sig_text(name@, FuncType { params, has_ret }),
{
    let mut out = name.to_owned();
    out.append("(");
    let ps = make_wasm_params(params);
    out.append(ps.as_str());
    out.append("): ");
    if has_ret {
        out.append("number");
    } else {
        out.append("void");
    }
    out.append(";");
    out
}

/// The typed interface lines for the module's function imports, in
/// module order: one `(name, line)` pair per function import.
pub open spec fn ts_imports_pref(m: ModuleView, n: int) -> Seq<(Seq<char>, Seq<char>)>
    decreases n,
{
    if n <= 0 {
        Seq::empty()
    } else {
        let rest = ts_imports_pref(m, n - 1);
        let e = m.imports@[n - 1];
        match e.kind {
            ImportKind::Function(t) => rest.push(
                (e.field@, wasm_sig_text(e.field@, m.types@[t as int])),
            ),
            ImportKind::Other => rest,
        }
    }
}

/// The typed interface lines for the module's exports, in module order:
/// function exports with their resolved types, memory exports as typed
/// memory fields.
pub open spec fn ts_exports_pref(m: ModuleView, n: int) -> Seq<(Seq<char>, Seq<char>)>
    decreases n,
{
    if n <= 0 {
        Seq::empty()
    } else {
        let rest = ts_exports_pref(m, n - 1);
        let e = m.exports@[n - 1];
        match e.kind {
            ExportKind::Function(f) => rest.push(
                (e.field@, wasm_sig_text(e.field@, m.export_fn_type(f as int))),
            ),
            ExportKind::Memory => rest.push((e.field@, memory_sig_text(e.field@))),
            ExportKind::Other => rest,
        }
    }
}

/// View of a list of name/text pairs.
pub open spec fn pair_views(s: Seq<(String, String)>) -> Seq<(Seq<char>, Seq<char>)> {
    s.map_values(|p: (String, String)| (p.0@, p.1@))
}

impl ModuleView {
    /// The typed interface lines for the module's function imports,
    /// generated from the module itself as the source of truth.
    pub fn typescript_wasm_imports(&self) -> (r: Vec<(String, String)>)
        requires
            self.wf(),
        ensures
            pair_views(r@) == ts_imports_pref(*self, self.imports@.len() as int),
    {
        let mut out: Vec<(String, String)> = Vec::new();
        let mut i: usize = 0;
        while i < self.imports.len()
            invariant
                self.wf(),
                i <= self.imports@.len(),
                pair_views(out@) == ts_imports_pref(*self, i as int),
            decreases self.imports@.len() - i,
        {
            let e = &self.imports[i];
            match &e.kind {
                ImportKind::Function(t) => {
                    let ty = &self.types[*t];
                    let sig = make_wasm_sig(e.field.as_str(), ty.params, ty.has_ret);
                    out.push((e.field.clone(), sig));
                    proof {
                        assert(pair_views(out@) =~= ts_imports_pref(*self, i + 1));
                    }
                },
                ImportKind::Other => {
                    proof {
                        assert(pair_views(out@) =~= ts_imports_pref(*self, i + 1));
                    }
                },
            }
            i += 1;
        }
        out
    }

    /// The typed interface lines for the module's exports, generated
    /// from the module itself as the source of truth.
    pub fn typescript_wasm_exports(&self) -> (r: Vec<(String, String)>)
        requires
            self.wf(),
        ensures
            pair_views(r@) == ts_exports_pref(*self, self.exports@.len() as int),
    {
        let imported = self.fn_imports();
        let mut out: Vec<(String, String)> = Vec::new();
        let mut i: usize = 0;
        while i < self.exports.len()
            invariant
                self.wf(),
                imported == self.spec_fn_imports(),
                i <= self.exports@.len(),
                pair_views(out@) == ts_exports_pref(*self, i as int),
            decreases self.exports@.len() - i,
        {
            let e = &self.exports[i];
            match &e.kind {
                ExportKind::Function(f) => {
                    let ty = &self.types[self.functions[*f - imported]];
                    let sig = make_wasm_sig(e.field.as_str(), ty.params, ty.has_ret);
                    out.push((e.field.clone(), sig));
                    proof {
                        assert(pair_views(out@) =~= ts_exports_pref(*self, i + 1));
                    }
                },
                ExportKind::Memory => {
                    let mut sig = e.field.clone();
                    sig.append(": WebAssembly.Memory;");
                    out.push((e.field.clone(), sig));
                    proof {
                        assert(pair_views(out@) =~= ts_exports_pref(*self, i + 1));
                    }
                },
                ExportKind::Other => {
                    proof {
                        assert(pair_views(out@) =~= ts_exports_pref(*self, i + 1));
                    }
                },
            }
            i += 1;
        }
        out
    }
}

} // verus!
