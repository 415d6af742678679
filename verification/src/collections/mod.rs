pub mod sorted_map;
pub mod text_map;

pub use sorted_map::{MapKey, SortedMap};
pub use text_map::{TextKey, TextMap};
