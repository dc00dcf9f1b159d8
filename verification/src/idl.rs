//! The interface definition language: what a parsed `.x` file holds, and the
//! rewriting that prepares it for code generation.

pub mod constant;
pub mod datatype;
pub mod definition;
pub mod names;
pub mod program;
pub mod specification;
pub mod util;
