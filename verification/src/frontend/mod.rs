pub mod ast;
pub mod hir;
pub mod resolver;
pub mod semantic;
pub mod source;
pub mod text;
