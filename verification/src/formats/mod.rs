//! The wire formats that carry more than one kind of response.

pub mod json;
pub mod tree;
