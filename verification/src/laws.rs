//! Laws of the cast, stated over [`cast_spec`] and proved once and for
//! all. Because `cast` is proved to return exactly what `cast_spec` says,
//! each law carries over to every run of the executable code.

use vstd::prelude::*;
use crate::types::LogicalType;
use crate::error::CastError;
use crate::array::ArrayModel;
use crate::cast_spec;
use crate::numeric::int_convert;

verus! {

/// Casting any array to its own type returns that array itself: no new
/// buffers, no new nulls, nested lists included.
pub proof fn lemma_cast_identity(m: ArrayModel)
    ensures
        cast_spec(m, m.dtype) == Result::<ArrayModel, CastError>::Ok(m),
{
}

/// Two casts of equal arrays to equal types return equal results; a cast
/// has nothing else to depend on.
pub proof fn lemma_cast_deterministic(m1: ArrayModel, to1: LogicalType, m2: ArrayModel, to2:
    LogicalType)
    requires
        m1 == m2,
        to1 == to2,
    ensures
        cast_spec(m1, to1) == cast_spec(m2, to2),
{
}

/// A successful cast preserves the element count and returns an array of
/// the requested type.
pub proof fn lemma_cast_shape(m: ArrayModel, to: LogicalType)
    ensures
        cast_spec(m, to) matches Result::Ok(r) ==> r.len == m.len && r.dtype == to,
{
}

/// A successful cast of an unsliced array returns an unsliced array.
pub proof fn lemma_cast_offset(m: ArrayModel, to: LogicalType)
    requires
        m.offset == 0,
    ensures
        cast_spec(m, to) matches Result::Ok(r) ==> r.offset == 0,
{
}

/// Re-casting a cast result to the same target returns it unchanged:
/// casting is idempotent.
pub proof fn lemma_cast_idempotent(m: ArrayModel, to: LogicalType)
    ensures
        cast_spec(m, to) matches Result::Ok(r) ==> cast_spec(r, to) == Result::<
            ArrayModel,
            CastError,
        >::Ok(r),
{
    lemma_cast_shape(m, to);
    match cast_spec(m, to) {
        Result::Ok(r) => lemma_cast_identity(r),
        Result::Err(_) => {},
    }
}

/// A null source element stays null in the result, for every supported
/// pair of types but one: a list-to-list cast between different types
/// derives the outer validity from the cast element array — a deliberate
/// quirk — and so does not preserve the outer bitmap.
pub proof fn lemma_null_preservation(m: ArrayModel, to: LogicalType, i: int)
    requires
        !(m.dtype matches LogicalType::List(_) && to matches LogicalType::List(_) && m.dtype
            != to),
        0 <= i < m.len,
        !m.valid_at(i),
    ensures
        cast_spec(m, to) matches Result::Ok(r) ==> !r.valid_at(i),
    decreases to.depth(),
{
    if m.dtype == to {
    } else if !(m.dtype matches LogicalType::List(_)) && (to matches LogicalType::List(_))
        && m.dtype != LogicalType::Struct && m.offset == 0 {
        lemma_null_preservation(m, to.list_inner(), i);
        lemma_cast_offset(m, to.list_inner());
    }
}

/// Asking a list-promotion cast of a sliced source always fails with the
/// dedicated restriction error, before any element is examined.
pub proof fn lemma_sliced_promotion(m: ArrayModel, to: LogicalType)
    requires
        !(m.dtype matches LogicalType::List(_)),
        m.dtype != LogicalType::Struct,
        to matches LogicalType::List(_),
        m.offset != 0,
    ensures
        cast_spec(m, to) == Result::<ArrayModel, CastError>::Err(CastError::SlicedPromotion),
{
}

/// Between integer types a cast always succeeds, and element-wise it keeps
/// exactly the values the target can represent: an in-range value survives
/// unchanged, an out-of-range value becomes null instead of failing the
/// call.
pub proof fn lemma_overflow_to_null(m: ArrayModel, to: LogicalType, i: int)
    requires
        m.wf(),
        m.dtype.is_integer(),
        to.is_integer(),
        m.dtype != to,
        0 <= i < m.len,
        m.valid_at(i),
    ensures
        cast_spec(m, to) matches Result::Ok(r) && {
            &&& int_convert(m.int_at(i), to) matches Option::Some(v) ==> r.valid_at(i)
                && r.int_at(i) == m.int_at(i)
            &&& int_convert(m.int_at(i), to) is None ==> !r.valid_at(i)
        },
{
}

} // verus!
