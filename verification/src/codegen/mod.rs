//! The code generator that turns a compiled Ohua dataflow graph into Rust code
//! running on the Ohua runtime.
pub mod ohua_types;
pub mod typedgen;
pub mod tasks;
pub mod imports;
pub mod backend_optimizations;
pub mod rewrite;
pub mod lang;
pub mod source_text;
pub mod ohuac;
pub mod checks;
pub mod errors;
