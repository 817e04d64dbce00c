//! Element-wise conversion between integer column types.
//!
//! A null element stays null; a non-null value is kept exactly when it lies
//! in the target type's range and becomes null otherwise. An out-of-range
//! element never fails the whole cast.

use vstd::prelude::*;
use std::sync::Arc;
use crate::types::LogicalType;
use crate::array::{ArrayModel, ArrayRef, ColumnarArray};
use crate::builder::{fresh_ints, PrimitiveBuilder};
use crate::error::CastError;

verus! {

/// Range-checked conversion of one integer value: the value itself when the
/// target can represent it, nothing otherwise.
pub open spec fn int_convert(v: int, to: LogicalType) -> Option<int>
    recommends
        to.is_integer(),
{
    if to.int_min() <= v <= to.int_max() {
        Option::Some(v)
    } else {
        Option::None
    }
}

/// The integer cell a cast writes at index `i`: null stays null, an
/// out-of-range value becomes null, any other value is kept.
pub open spec fn numeric_cell(m: ArrayModel, to: LogicalType, i: int) -> Option<int>
    recommends
        m.payload is Ints,
        to.is_integer(),
{
    if m.valid_at(i) {
        int_convert(m.int_at(i), to)
    } else {
        Option::None
    }
}

/// The array an integer-to-integer cast returns.
pub open spec fn numeric_cast_model(m: ArrayModel, to: LogicalType) -> ArrayModel
    recommends
        m.payload is Ints,
        to.is_integer(),
{
    fresh_ints(to, Seq::new(m.len, |i: int| numeric_cell(m, to, i)))
}

/// Converts every element of an integer array to the target integer type,
/// with out-of-range values degrading to null.
pub fn numeric_cast(from: &ColumnarArray, to_type: &LogicalType) -> (r: Result<
    ColumnarArray,
    CastError,
>)
    requires
        from@.wf(),
        from@.dtype.is_integer(),
        to_type.is_integer(),
    ensures
        r matches Ok(out) && out@ == numeric_cast_model(from@, *to_type) && out@.wf(),
{
    let n = from.length();
    let lo = to_type.int_min_value();
    let hi = to_type.int_max_value();
    let mut b = PrimitiveBuilder::new(to_type.duplicate());
    let mut i: usize = 0;
    while i < n
        invariant
            from@.wf(),
            from@.dtype.is_integer(),
            to_type.is_integer(),
            n == from@.len,
            lo as int == to_type.int_min(),
            hi as int == to_type.int_max(),
            i <= n,
            b.inv(),
            b.target() == *to_type,
            b.cells() == Seq::new(i as nat, |k: int| numeric_cell(from@, *to_type, k)),
        decreases n - i,
    {
        let ghost pre = b.cells();
        if from.is_null(i) {
            b.append_null();
        } else {
            let v = from.value_int(i);
            if lo <= v && v <= hi {
                b.append_value(v);
            } else {
                b.append_null();
            }
        }
        proof {
            assert(b.cells() =~= Seq::new((i + 1) as nat,
                |k: int| numeric_cell(from@, *to_type, k)));
        }
        i = i + 1;
    }
    let out = b.finish();
    Ok(out)
}

/// Routes a shared array through [`numeric_cast`] and shares the result.
pub fn cast_numeric_arrays(from: &ArrayRef, to_type: &LogicalType) -> (r: Result<
    ArrayRef,
    CastError,
>)
    requires
        from@.wf(),
        from@.dtype.is_integer(),
        to_type.is_integer(),
    ensures
        r matches Ok(out) && out@ == numeric_cast_model(from@, *to_type) && out@.wf(),
{
    match numeric_cast(&**from, to_type) {
        Ok(out) => Ok(Arc::new(out)),
        Err(e) => Err(e),
    }
}

} // verus!
