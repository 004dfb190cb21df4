//! Shorthand constructors for the per-position acceptance rules and the
//! declared return shapes used by the built-in signature tables.

use vstd::prelude::*;

use crate::interpreter::DataKind;
use crate::interpreter::scope::ReturnType;
use crate::interpreter::scope::SignatureArgument;

verus! {

/// A slot that accepts any argument and passes it through unevaluated.
pub fn arg_raw() -> (r: SignatureArgument)
    ensures
        r == SignatureArgument::Raw,
{
    SignatureArgument::Raw
}

/// A slot that accepts any argument and evaluates it.
pub fn arg_any() -> (r: SignatureArgument)
    ensures
        r == SignatureArgument::Any,
{
    SignatureArgument::Any
}

/// A slot that accepts only arguments whose resolved shape is a string.
pub fn arg_string() -> (r: SignatureArgument)
    ensures
        r == SignatureArgument::Data(DataKind::Str),
{
    SignatureArgument::Data(DataKind::Str)
}

/// A slot that accepts only arguments whose resolved shape is a number.
pub fn arg_number() -> (r: SignatureArgument)
    ensures
        r == SignatureArgument::Data(DataKind::Num),
{
    SignatureArgument::Data(DataKind::Num)
}

/// A slot that accepts only arguments whose resolved shape is a boolean.
pub fn arg_boolean() -> (r: SignatureArgument)
    ensures
        r == SignatureArgument::Data(DataKind::Bool),
{
    SignatureArgument::Data(DataKind::Bool)
}

/// A slot that accepts only arguments whose resolved shape is a list.
pub fn arg_list() -> (r: SignatureArgument)
    ensures
        r == SignatureArgument::Data(DataKind::List),
{
    SignatureArgument::Data(DataKind::List)
}

/// A declared return shape that callers cannot rely on.
pub fn return_any() -> (r: ReturnType)
    ensures
        r == ReturnType::Any,
{
    ReturnType::Any
}

/// A declared string return shape.
pub fn return_string() -> (r: ReturnType)
    ensures
        r == ReturnType::Data(DataKind::Str),
{
    ReturnType::Data(DataKind::Str)
}

/// A declared number return shape.
pub fn return_number() -> (r: ReturnType)
    ensures
        r == ReturnType::Data(DataKind::Num),
{
    ReturnType::Data(DataKind::Num)
}

/// A declared boolean return shape.
pub fn return_boolean() -> (r: ReturnType)
    ensures
        r == ReturnType::Data(DataKind::Bool),
{
    ReturnType::Data(DataKind::Bool)
}

/// A declared list return shape.
pub fn return_list() -> (r: ReturnType)
    ensures
        r == ReturnType::Data(DataKind::List),
{
    ReturnType::Data(DataKind::List)
}

/// A declared control-flow return shape.
pub fn return_control() -> (r: ReturnType)
    ensures
        r == ReturnType::Data(DataKind::Flow),
{
    ReturnType::Data(DataKind::Flow)
}

/// A declared unit return shape.
pub fn return_unit() -> (r: ReturnType)
    ensures
        r == ReturnType::Data(DataKind::Unit),
{
    ReturnType::Data(DataKind::Unit)
}

} // verus!
