//! Scalar validation: does one runtime value fit a column's declared type?

use vstd::prelude::*;

use crate::types::{ScalarType, ScalarValue, ScalarValueV, Type, TypeError, TypeErrorV};

verus! {

/// The scalar kind at the bottom of a type, unwrapping through `Optional`.
pub open spec fn inner_scalar_spec(ty: Type) -> ScalarType
    decreases ty,
{
    match ty {
        Type::Optional(inner) => inner_scalar_spec(*inner),
        Type::ScalarType(st) => st,
    }
}

/// Whether a value fits a type: `Null` fits only optional types; a concrete
/// value fits when its kind equals the scalar kind at the bottom of the
/// type; anything else is a type mismatch naming both.
pub open spec fn typecheck_scalar_spec(v: ScalarValueV, ty: Type) -> Result<(), TypeErrorV> {
    if (v is Null && ty is Optional) || (v is Int && inner_scalar_spec(ty) == ScalarType::Int) || (
    v is String && inner_scalar_spec(ty) == ScalarType::String) || (v is Bool && inner_scalar_spec(
        ty,
    ) == ScalarType::Bool) {
        Ok(())
    } else {
        Err(TypeErrorV::TypeMismatchInInput { expected_type: ty, input_value: v })
    }
}

/// The scalar kind at the bottom of the type.
pub fn inner_scalar_type(expected_type: &Type) -> (r: &ScalarType)
    ensures
        *r == inner_scalar_spec(*expected_type),
    decreases *expected_type,
{
    match expected_type {
        Type::Optional(ty) => inner_scalar_type(ty),
        Type::ScalarType(st) => st,
    }
}

/// Validate one value against one type, per `typecheck_scalar_spec`.
pub fn typecheck_scalar(value: &ScalarValue, expected_type: &Type) -> (r: Result<(), TypeError>)
    ensures
        match r {
            Ok(()) => typecheck_scalar_spec(value@, *expected_type) == Ok::<(), TypeErrorV>(()),
            Err(e) => typecheck_scalar_spec(value@, *expected_type) == Err::<(), TypeErrorV>(e@),
        },
{
    let fits: bool = match value {
        ScalarValue::Null => matches!(expected_type, Type::Optional(_)),
        ScalarValue::Int(_) => *inner_scalar_type(expected_type) == ScalarType::Int,
        ScalarValue::String(_) => *inner_scalar_type(expected_type) == ScalarType::String,
        ScalarValue::Bool(_) => *inner_scalar_type(expected_type) == ScalarType::Bool,
    };
    if fits {
        Ok(())
    } else {
        Err(TypeError::TypeMismatchInInput {
            expected_type: expected_type.dup(),
            input_value: value.dup(),
        })
    }
}

} // verus!
