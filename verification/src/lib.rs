//! Verified core of the razero optimizing compiler: the byte formats, layouts
//! and packaging rules that the compiler engine, its cache and its native
//! linker rely on.

pub mod checksum;
pub mod le_bytes;
pub mod text;
pub mod engine_cache;
pub mod package;
pub mod leb128;
pub mod aot;
pub mod const_expr;
pub mod runtime_state;
pub mod relocation;
pub mod linker;
pub mod call_engine;
pub mod isa_amd64;
pub mod isa_other;
pub mod memmove;
pub mod frontend;
pub mod module_engine;
pub mod hostmodule;
pub mod runtime_support;
pub mod elf;
pub mod c_source;
pub mod hello_host;
pub mod native_link;
pub mod link_objects;
pub mod code_map;
pub mod module_registry;
pub mod linked_module;
