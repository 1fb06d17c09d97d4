//! Small helpers that turn common one-line idioms into a single, readable call:
//! choosing between two values, reversing text, and joining slices.

pub mod arrays;
pub mod choice;
pub mod text;

pub use arrays::concat_arrays;
pub use choice::ternary_operator;
pub use text::reverse_string;
