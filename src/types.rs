//! The type codes that functions, sensors and axes declare.
use vstd::prelude::*;

verus! {

/// A primitive type of the native interface.
#[derive(Clone, Copy, PartialEq, Eq, Structural, Debug)]
pub enum PrimType {
    Bool,
    Byte,
    Short,
    Int,
    Long,
    Float,
    Double,
}

/// A type code: a primitive, an array of primitives, a string or an array
/// of strings.
#[derive(Clone, Copy, PartialEq, Eq, Structural, Debug)]
pub enum Type {
    Prim(PrimType),
    PrimArray(PrimType),
    String,
    StringArray,
}

/// The wire string of a type code.
pub open spec fn type_code(t: Type) -> Seq<char> {
    match t {
        Type::Prim(PrimType::Bool) => "bool"@,
        Type::Prim(PrimType::Byte) => "byte"@,
        Type::Prim(PrimType::Short) => "short"@,
        Type::Prim(PrimType::Int) => "int"@,
        Type::Prim(PrimType::Long) => "long"@,
        Type::Prim(PrimType::Float) => "float"@,
        Type::Prim(PrimType::Double) => "double"@,
        Type::PrimArray(PrimType::Bool) => "bool[]"@,
        Type::PrimArray(PrimType::Byte) => "byte[]"@,
        Type::PrimArray(PrimType::Short) => "short[]"@,
        Type::PrimArray(PrimType::Int) => "int[]"@,
        Type::PrimArray(PrimType::Long) => "long[]"@,
        Type::PrimArray(PrimType::Float) => "float[]"@,
        Type::PrimArray(PrimType::Double) => "double[]"@,
        Type::String => "string"@,
        Type::StringArray => "string[]"@,
    }
}

impl Type {
    /// The type whose wire string is `s`, if any.
    pub fn from_str(s: &str) -> (r: Option<Type>)
        ensures
            r is Some ==> type_code(r->0) == s@,
            r is None ==> forall|t: Type| type_code(t) != s@,
    {
        let s = String::from_str(s);
        if s == String::from_str("bool") {
            Some(Type::Prim(PrimType::Bool))
        } else if s == String::from_str("byte") {
            Some(Type::Prim(PrimType::Byte))
        } else if s == String::from_str("short") {
            Some(Type::Prim(PrimType::Short))
        } else if s == String::from_str("int") {
            Some(Type::Prim(PrimType::Int))
        } else if s == String::from_str("long") {
            Some(Type::Prim(PrimType::Long))
        } else if s == String::from_str("float") {
            Some(Type::Prim(PrimType::Float))
        } else if s == String::from_str("double") {
            Some(Type::Prim(PrimType::Double))
        } else if s == String::from_str("bool[]") {
            Some(Type::PrimArray(PrimType::Bool))
        } else if s == String::from_str("byte[]") {
            Some(Type::PrimArray(PrimType::Byte))
        } else if s == String::from_str("short[]") {
            Some(Type::PrimArray(PrimType::Short))
        } else if s == String::from_str("int[]") {
            Some(Type::PrimArray(PrimType::Int))
        } else if s == String::from_str("long[]") {
            Some(Type::PrimArray(PrimType::Long))
        } else if s == String::from_str("float[]") {
            Some(Type::PrimArray(PrimType::Float))
        } else if s == String::from_str("double[]") {
            Some(Type::PrimArray(PrimType::Double))
        } else if s == String::from_str("string") {
            Some(Type::String)
        } else if s == String::from_str("string[]") {
            Some(Type::StringArray)
        } else {
            None
        }
    }

    /// The wire string of the type.
    pub fn to_str(&self) -> (r: &'static str)
        ensures
            r@ == type_code(*self),
    {
        match self {
            Type::Prim(PrimType::Bool) => "bool",
            Type::Prim(PrimType::Byte) => "byte",
            Type::Prim(PrimType::Short) => "short",
            Type::Prim(PrimType::Int) => "int",
            Type::Prim(PrimType::Long) => "long",
            Type::Prim(PrimType::Float) => "float",
            Type::Prim(PrimType::Double) => "double",
            Type::PrimArray(PrimType::Bool) => "bool[]",
            Type::PrimArray(PrimType::Byte) => "byte[]",
            Type::PrimArray(PrimType::Short) => "short[]",
            Type::PrimArray(PrimType::Int) => "int[]",
            Type::PrimArray(PrimType::Long) => "long[]",
            Type::PrimArray(PrimType::Float) => "float[]",
            Type::PrimArray(PrimType::Double) => "double[]",
            Type::String => "string",
            Type::StringArray => "string[]",
        }
    }
}

/// Distinct types have distinct wire strings, so reading the string of a
/// type gives that type back.
pub proof fn lemma_type_code_injective(a: Type, b: Type)
    ensures
        type_code(a) == type_code(b) ==> a == b,
{
    reveal_strlit("bool");
    reveal_strlit("byte");
    reveal_strlit("short");
    reveal_strlit("int");
    reveal_strlit("long");
    reveal_strlit("float");
    reveal_strlit("double");
    reveal_strlit("bool[]");
    reveal_strlit("byte[]");
    reveal_strlit("short[]");
    reveal_strlit("int[]");
    reveal_strlit("long[]");
    reveal_strlit("float[]");
    reveal_strlit("double[]");
    reveal_strlit("string");
    reveal_strlit("string[]");
    if type_code(a) == type_code(b) {
        let ca = type_code(a);
        let cb = type_code(b);
        assert(ca.len() == cb.len());
        assert(ca[0] == cb[0]);
        assert(ca[1] == cb[1]);
        assert(ca.last() == cb.last());
    }
}

} // verus!
