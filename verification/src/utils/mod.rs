//! Target enumeration: address and port expressions, and the text handling
//! underneath them.

pub mod address;
pub mod distinct;
pub mod pattern;
pub mod port;
pub mod table;
pub mod text;
