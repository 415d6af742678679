//! Editor-facing logic of the language server: position and URI
//! conversions, the open documents, hover, go-to-definition and inlay
//! hints over an analysed document, locating the method call under the
//! cursor, and how results are presented.

pub mod convert;
pub mod document;
pub mod handlers;
pub mod method_call;
pub mod presentation;
pub mod state;
