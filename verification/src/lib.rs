//! Casting of immutable columnar arrays between logical column types.
//!
//! The entry point is [`cast`]: it takes a shared handle to an array and a
//! target type and returns a new array of that type with the same element
//! count, or a [`error::CastError`] naming why the pair of types has no
//! conversion. Per-element failures — an out-of-range narrowing, text that
//! is not a numeral — never fail the call; they become null elements of
//! the result. The function [`cast_spec`] is the complete mathematical
//! description of that behaviour, and `cast` is proved to return exactly
//! what it says; in particular the result of a cast is a function of the
//! source array's value and the target type alone.

pub mod types;
pub mod error;
pub mod array;
pub mod builder;
pub mod numeric;
pub mod boolean;
pub mod text;
pub mod list;
pub mod laws;

use vstd::prelude::*;
use std::sync::Arc;
use crate::types::LogicalType;
use crate::error::CastError;
use crate::array::{ArrayModel, ArrayRef};
use crate::numeric::{cast_numeric_arrays, numeric_cast_model};
use crate::boolean::{
    bool_to_numeric_model, bool_to_string_cast, bool_to_string_model, cast_bool_to_numeric,
    cast_numeric_to_bool, numeric_to_bool_model,
};
use crate::text::{
    cast_numeric_to_string, cast_string_to_numeric, numeric_to_string_model,
    string_to_numeric_model,
};
use crate::list::{list_to_list_model, promote_model, wrap_list_result, wrap_promotion};

verus! {

/// Relies on Arc::clone: the returned handle refers to the same allocation,
/// so it carries the same value.
#[verifier::external_body]
pub fn arc_clone<T>(rc: &Arc<T>) -> (res: Arc<T>)
    ensures
        res == *rc,
{
    Arc::clone(rc)
}

/// What a cast returns, for every source array and target type.
///
/// The cases are tried in order:
/// - equal types: the source array itself, unchanged and untraversed;
/// - a struct type on either side is refused;
/// - list to list: the element array is cast recursively and the outer
///   shape kept (see [`list_to_list_model`]);
/// - list to non-list is refused;
/// - non-list to list: refused for a sliced source, otherwise the flat
///   array is cast recursively to the element type and each element
///   wrapped as a one-element list (see [`promote_model`]);
/// - numeric to boolean, boolean to numeric or text, text to integer,
///   integer to text, and integer to integer convert element-wise;
/// - every other pair is refused, with both types named. That includes
///   the pairs whose conversion would take real floating-point
///   arithmetic (a float type to or from integers, floats of the other
///   width, or text): this crate treats float values as opaque bit
///   patterns and performs no such conversion.
pub open spec fn cast_spec(m: ArrayModel, to: LogicalType) -> Result<ArrayModel, CastError>
    decreases to.depth(),
{
    if m.dtype == to {
        Result::Ok(m)
    } else if m.dtype == LogicalType::Struct {
        Result::Err(CastError::StructSource)
    } else if to == LogicalType::Struct {
        Result::Err(CastError::StructTarget)
    } else if m.dtype matches LogicalType::List(_) && to matches LogicalType::List(_) {
        match cast_spec(m.list_child(), to.list_inner()) {
            Result::Ok(c) => Result::Ok(list_to_list_model(m, to, c)),
            Result::Err(e) => Result::Err(e),
        }
    } else if m.dtype matches LogicalType::List(_) {
        Result::Err(CastError::ListToNonList)
    } else if to matches LogicalType::List(_) {
        if m.offset != 0 {
            Result::Err(CastError::SlicedPromotion)
        } else {
            match cast_spec(m, to.list_inner()) {
                Result::Ok(c) => Result::Ok(promote_model(m, to, c)),
                Result::Err(e) => Result::Err(e),
            }
        }
    } else if to == LogicalType::Boolean {
        if m.dtype.is_numeric() {
            Result::Ok(numeric_to_bool_model(m))
        } else {
            Result::Err(CastError::Unsupported(m.dtype, to))
        }
    } else if m.dtype == LogicalType::Boolean {
        if to.is_numeric() {
            Result::Ok(bool_to_numeric_model(m, to))
        } else if to == LogicalType::Utf8 {
            Result::Ok(bool_to_string_model(m))
        } else {
            Result::Err(CastError::Unsupported(m.dtype, to))
        }
    } else if m.dtype == LogicalType::Utf8 {
        if to.is_integer() {
            Result::Ok(string_to_numeric_model(m, to))
        } else {
            Result::Err(CastError::Unsupported(m.dtype, to))
        }
    } else if to == LogicalType::Utf8 {
        if m.dtype.is_integer() {
            Result::Ok(numeric_to_string_model(m))
        } else {
            Result::Err(CastError::Unsupported(m.dtype, to))
        }
    } else if m.dtype.is_integer() && to.is_integer() {
        Result::Ok(numeric_cast_model(m, to))
    } else {
        Result::Err(CastError::Unsupported(m.dtype, to))
    }
}

/// Casts an array to the given target type.
///
/// Returns exactly what [`cast_spec`] describes: a shared handle to the
/// source for an identity cast, a fresh array of the target type and the
/// source's length for a supported pair, and the error `cast_spec` names
/// for a refused pair. The source array is never changed.
pub fn cast(array: &ArrayRef, to_type: &LogicalType) -> (r: Result<ArrayRef, CastError>)
    requires
        array@.wf(),
    ensures
        match r {
            Result::Ok(out) => {
                &&& cast_spec(array@, *to_type) == Result::<ArrayModel, CastError>::Ok(out@)
                &&& out@.wf()
                &&& out@.len == array@.len
                &&& out@.dtype == *to_type
            },
            Result::Err(e) => cast_spec(array@, *to_type) == Result::<ArrayModel, CastError>::Err(
                e,
            ),
        },
    decreases to_type.depth(),
{
    if array.data_type().eq_type(to_type) {
        return Result::Ok(arc_clone(array));
    }
    match (array.data_type(), to_type) {
        (LogicalType::Struct, _) => Result::Err(CastError::StructSource),
        (_, LogicalType::Struct) => Result::Err(CastError::StructTarget),
        (LogicalType::List(_), LogicalType::List(inner)) => {
            let child = array.list_values();
            match cast(&child, &**inner) {
                Result::Ok(cast_child) => Result::Ok(
                    wrap_list_result(array, to_type, cast_child),
                ),
                Result::Err(e) => Result::Err(e),
            }
        },
        (LogicalType::List(_), _) => Result::Err(CastError::ListToNonList),
        (_, LogicalType::List(inner)) => {
            if array.start_offset() != 0 {
                Result::Err(CastError::SlicedPromotion)
            } else {
                match cast(array, &**inner) {
                    Result::Ok(cast_flat) => Result::Ok(
                        wrap_promotion(array, to_type, cast_flat),
                    ),
                    Result::Err(e) => Result::Err(e),
                }
            }
        },
        (_, LogicalType::Boolean) => {
            if array.data_type().is_numeric_kind() {
                cast_numeric_to_bool(array)
            } else {
                Result::Err(
                    CastError::Unsupported(array.data_type().duplicate(), to_type.duplicate()),
                )
            }
        },
        (LogicalType::Boolean, _) => {
            if to_type.is_numeric_kind() {
                cast_bool_to_numeric(array, to_type)
            } else if to_type.eq_type(&LogicalType::Utf8) {
                match bool_to_string_cast(&**array) {
                    Result::Ok(out) => Result::Ok(Arc::new(out)),
                    Result::Err(e) => Result::Err(e),
                }
            } else {
                Result::Err(
                    CastError::Unsupported(array.data_type().duplicate(), to_type.duplicate()),
                )
            }
        },
        (LogicalType::Utf8, _) => {
            if to_type.is_integer_kind() {
                cast_string_to_numeric(array, to_type)
            } else {
                Result::Err(
                    CastError::Unsupported(array.data_type().duplicate(), to_type.duplicate()),
                )
            }
        },
        (_, LogicalType::Utf8) => {
            if array.data_type().is_integer_kind() {
                cast_numeric_to_string(array)
            } else {
                Result::Err(
                    CastError::Unsupported(array.data_type().duplicate(), to_type.duplicate()),
                )
            }
        },
        (_, _) => {
            if array.data_type().is_integer_kind() && to_type.is_integer_kind() {
                cast_numeric_arrays(array, to_type)
            } else {
                Result::Err(
                    CastError::Unsupported(array.data_type().duplicate(), to_type.duplicate()),
                )
            }
        },
    }
}

} // verus!
