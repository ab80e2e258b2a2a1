//! Generator for a typed host-language glue layer around a compiled
//! WebAssembly module.
//!
//! The library turns a high-level program description (free functions,
//! opaque structs and imports, each with a typed signature) together with
//! a read-only view of the wasm module into a single source-text blob:
//! trampoline functions that marshal rich values across the integer-only
//! wasm ABI, class wrappers for pointer-based opaque instances, a small
//! host-side runtime (object slab, borrowed-object stack, string
//! transfer) and the well-known runtime intrinsics the module may import.
//!
//! Layout: `ty` holds the high-level type and program model, `name_map`
//! the bidirectional symbol rename tables, `module_view` the wasm module
//! reduced to plain values, `snippet` the runtime helper library,
//! `codegen` the signature and import-shim compilers, and `assemble` the
//! top-level output assembly. `runtime` and `memory` hold a verified
//! reference model of the generated runtime — object slab, borrowed
//! stack, linear-memory string transfer and the intrinsics — on which
//! its invariants (handle round trips, stack discipline, freelist
//! consistency, ownership transfer) are stated and proved. `harness`
//! holds the scratch-project description the build driver fills in.

pub mod assemble;
pub mod codegen;
pub mod harness;
pub mod snippet;
pub mod memory;
pub mod module_view;
pub mod name_map;
pub mod runtime;
pub mod text;
pub mod ty;
