//! Reading Cairo struct and enum declarations into plain descriptions, and
//! building the text that derived code is generated from.
pub mod codegen;
pub mod diagnostic;
pub mod hashing;
pub mod laws;
pub mod parse;
pub mod parsers;
pub mod reading;
pub mod tree;
