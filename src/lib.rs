//! An SSA intermediate representation for WebAssembly functions and modules:
//! value definitions, function bodies built from blocks, module containers,
//! and a deterministic textual dump of both.

pub mod body;
pub mod display;
pub mod entity;
pub mod module;
pub mod text;
pub mod value;
