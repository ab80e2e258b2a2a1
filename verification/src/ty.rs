//! The high-level data model a glue generator consumes: typed signatures
//! for functions, structs and imports, and the program that groups them.

use vstd::prelude::*;
use vstd::string::*;

verus! {

/// One parameter or return slot of a high-level signature.
///
/// The wasm side only ever sees integers; each variant names the
/// marshalling protocol that bridges one rich host value to those
/// integers. Class-carrying variants hold the class name.
pub enum HighLevelType {
    /// Host numeric value; wasm-side: one integer.
    Number,
    /// Host boolean; wasm-side: one integer, 0 or 1.
    Boolean,
    /// Host string owned by the caller, freed again after the call.
    BorrowedStr,
    /// Host string whose ownership is transferred (in) or returned (out).
    OwnedStr,
    /// Arbitrary host value transferred by heap handle; ownership moves.
    JsObject,
    /// Arbitrary host value lent by stack handle; released after the call.
    JsObjectRef,
    /// Borrow of an opaque class instance; the instance keeps ownership.
    ByRef(String),
    /// Mutable borrow of an opaque class instance.
    ByMutRef(String),
    /// Ownership transfer of an opaque class instance; the source wrapper's
    /// pointer is nulled.
    ByValue(String),
}

/// A typed high-level signature: ordered parameters and an optional result.
pub struct Function {
    pub name: String,
    pub arguments: Vec<HighLevelType>,
    pub ret: Option<HighLevelType>,
}

/// An opaque struct: a name, its static functions and its instance methods.
///
/// Every struct also has an implicit destructor export whose name is
/// derived from the struct's name (see [`free_export_name`]).
pub struct StructDecl {
    pub name: String,
    pub functions: Vec<Function>,
    pub methods: Vec<Function>,
}

/// A whole program description. Iteration order of all three sequences is
/// preserved in the generator's output.
pub struct Program {
    pub free_functions: Vec<Function>,
    pub structs: Vec<StructDecl>,
    pub imports: Vec<Function>,
}

/// Name of the implicit wasm destructor export of a struct.
pub open spec fn free_export_name(struct_name: Seq<char>) -> Seq<char> {
    "__wbindgen_"@ + struct_name + "_free"@
}

/// Wasm export name of a static function or method of a struct.
pub open spec fn struct_fn_export_name(struct_name: Seq<char>, fn_name: Seq<char>) -> Seq<char> {
    struct_name + "_"@ + fn_name
}

impl StructDecl {
    /// Name of the wasm export that destroys an instance of this struct.
    pub fn free_function_name(&self) -> (r: String)
        ensures
            r@ == free_export_name(self.name@),
    {
        let mut r = String::new();
        r.append("__wbindgen_");
        r.append(self.name.as_str());
        r.append("_free");
        proof {
            assert(r@ =~= free_export_name(self.name@));
        }
        r
    }
}

impl Function {
    /// Wasm export name of this function when it belongs to a struct.
    pub fn struct_function_export_name(&self, struct_name: &str) -> (r: String)
        ensures
            r@ == struct_fn_export_name(struct_name@, self.name@),
    {
        let mut r = String::new();
        r.append(struct_name);
        r.append("_");
        r.append(self.name.as_str());
        proof {
            assert(r@ =~= struct_fn_export_name(struct_name@, self.name@));
        }
        r
    }
}

} // verus!
