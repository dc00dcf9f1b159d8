//! Names of the primitive types.

use crate::idl::names::str_eq;
use vstd::prelude::*;

verus! {

/// How a definition uses the type that it names.
#[derive(Clone, Copy, Debug, PartialEq, Eq, Structural)]
pub enum TypeKind {
    SimpleIdent,
    FixedArray,
    VarlenArray,
}

/// The Rust name of the primitive type that `name` names in a `.x` file, or
/// `None` where `name` names no primitive type.
pub open spec fn primitive_type(name: Seq<char>) -> Option<Seq<char>> {
    if name == "int8_t"@ || name == "char"@ || name == "signed char"@ {
        Some("i8"@)
    } else if name == "uint8_t"@ || name == "unsigned char"@ {
        Some("u8"@)
    } else if name == "int16_t"@ || name == "short"@ || name == "signed short"@ {
        Some("i16"@)
    } else if name == "uint16_t"@ || name == "unsigned short"@ {
        Some("u16"@)
    } else if name == "int32_t"@ || name == "int"@ || name == "signed int"@ {
        Some("i32"@)
    } else if name == "uint32_t"@ || name == "unsigned int"@ {
        Some("u32"@)
    } else if name == "int64_t"@ || name == "long"@ || name == "signed long"@ {
        Some("i64"@)
    } else if name == "uint64_t"@ || name == "unsigned long"@ {
        Some("u64"@)
    } else if name == "float"@ {
        Some("f32"@)
    } else if name == "double"@ {
        Some("f64"@)
    } else if name == "string"@ || name == "string<>"@ {
        Some("String"@)
    } else if name == "opaque"@ {
        Some("u8"@)
    } else {
        None
    }
}

/// Gives the name of the Rust type that stands for a primitive type of a
/// `.x` file.
pub fn convert_primitve_type(s: &str) -> (converted: Option<&'static str>)
    ensures
        match converted {
            Some(name) => primitive_type(s@) == Some(name@),
            None => primitive_type(s@) is None,
        },
{
    if str_eq(s, "int8_t") || str_eq(s, "char") || str_eq(s, "signed char") {
        Some("i8")
    } else if str_eq(s, "uint8_t") || str_eq(s, "unsigned char") {
        Some("u8")
    } else if str_eq(s, "int16_t") || str_eq(s, "short") || str_eq(s, "signed short") {
        Some("i16")
    } else if str_eq(s, "uint16_t") || str_eq(s, "unsigned short") {
        Some("u16")
    } else if str_eq(s, "int32_t") || str_eq(s, "int") || str_eq(s, "signed int") {
        Some("i32")
    } else if str_eq(s, "uint32_t") || str_eq(s, "unsigned int") {
        Some("u32")
    } else if str_eq(s, "int64_t") || str_eq(s, "long") || str_eq(s, "signed long") {
        Some("i64")
    } else if str_eq(s, "uint64_t") || str_eq(s, "unsigned long") {
        Some("u64")
    } else if str_eq(s, "float") {
        Some("f32")
    } else if str_eq(s, "double") {
        Some("f64")
    } else if str_eq(s, "string") || str_eq(s, "string<>") {
        Some("String")
    } else if str_eq(s, "opaque") {
        Some("u8")
    } else {
        None
    }
}

} // verus!
