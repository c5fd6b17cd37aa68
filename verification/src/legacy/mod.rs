//! The earlier generator, which writes a runtime module driven by a graph of
//! boxed values: its graph types; the extraction of the stateful functions' type
//! information from their modules; the files it writes (function wrappers, type
//! casts, the module file and the graph as data), each a template filled in; and
//! the runtime's channels, placed at the operators' ports.
pub mod types;
pub mod wrappers;
pub mod wrapper_code;
pub mod wrapper_file;
pub mod type_extract;
pub mod errors;
pub mod source_text;
pub mod modgen;
pub mod typecasts;
pub mod channels;
pub mod ohuac;
pub mod function_map;
pub mod fixed_casts;
pub mod templates;
pub mod port_layout;
