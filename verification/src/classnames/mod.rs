//! The compiler of class lists: the grammar of the elements, and the fold
//! that resolves what is known without running the program.

pub mod laws;
pub mod parsers;
pub mod units;
