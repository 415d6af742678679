pub mod completion;
pub mod type_check;
pub mod type_infer;
