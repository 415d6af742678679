pub mod collections;
pub mod frontend;
pub mod lsp;
pub mod midend;
