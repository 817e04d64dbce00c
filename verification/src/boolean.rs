//! Element-wise conversions between boolean columns and numeric or text
//! columns.
//!
//! These conversions are exact and never introduce nulls beyond the
//! source's nulls. A numeric element maps to `true` exactly when it is not
//! the type's zero; for a float element that is a test of its bit pattern
//! with the sign bit ignored, so both signed zeros map to `false` and
//! everything else, a NaN pattern included, maps to `true`.

use vstd::prelude::*;
use std::sync::Arc;
use crate::types::LogicalType;
use crate::array::{ArrayModel, ArrayRef, ColumnarArray};
use crate::builder::{
    fresh_bools, fresh_floats, fresh_ints, fresh_texts, BinaryBuilder, BooleanBuilder,
    FloatBuilder, PrimitiveBuilder,
};
use crate::error::CastError;

verus! {

/// Whether a float bit pattern denotes anything but a (positive or
/// negative) zero.
pub open spec fn float_nonzero(dtype: LogicalType, bits: u64) -> bool
    recommends
        dtype.is_float(),
{
    if dtype == LogicalType::Float32 {
        bits & 0x7fff_ffff != 0
    } else {
        bits & 0x7fff_ffff_ffff_ffff != 0
    }
}

/// The boolean cell a numeric-to-boolean cast writes at index `i`.
pub open spec fn to_bool_cell(m: ArrayModel, i: int) -> Option<bool>
    recommends
        m.dtype.is_numeric(),
{
    if m.valid_at(i) {
        Option::Some(
            if m.dtype.is_integer() {
                m.int_at(i) != 0
            } else {
                float_nonzero(m.dtype, m.float_at(i))
            },
        )
    } else {
        Option::None
    }
}

/// The array a numeric-to-boolean cast returns.
pub open spec fn numeric_to_bool_model(m: ArrayModel) -> ArrayModel
    recommends
        m.dtype.is_numeric(),
{
    fresh_bools(Seq::new(m.len, |i: int| to_bool_cell(m, i)))
}

/// The bit pattern of the float value one.
pub open spec fn float_one(dtype: LogicalType) -> u64
    recommends
        dtype.is_float(),
{
    if dtype == LogicalType::Float32 {
        0x3f80_0000u64
    } else {
        0x3ff0_0000_0000_0000u64
    }
}

/// The integer cell a boolean-to-integer cast writes at index `i`.
pub open spec fn bool_to_int_cell(m: ArrayModel, i: int) -> Option<int>
    recommends
        m.dtype == LogicalType::Boolean,
{
    if m.valid_at(i) {
        Option::Some(
            if m.bool_at(i) {
                1int
            } else {
                0int
            },
        )
    } else {
        Option::None
    }
}

/// The float cell a boolean-to-float cast writes at index `i`.
pub open spec fn bool_to_float_cell(m: ArrayModel, to: LogicalType, i: int) -> Option<u64>
    recommends
        m.dtype == LogicalType::Boolean,
        to.is_float(),
{
    if m.valid_at(i) {
        Option::Some(
            if m.bool_at(i) {
                float_one(to)
            } else {
                0u64
            },
        )
    } else {
        Option::None
    }
}

/// The array a boolean-to-numeric cast returns: `true` becomes one, `false`
/// becomes the type's zero.
pub open spec fn bool_to_numeric_model(m: ArrayModel, to: LogicalType) -> ArrayModel
    recommends
        m.dtype == LogicalType::Boolean,
        to.is_numeric(),
{
    if to.is_integer() {
        fresh_ints(to, Seq::new(m.len, |i: int| bool_to_int_cell(m, i)))
    } else {
        fresh_floats(to, Seq::new(m.len, |i: int| bool_to_float_cell(m, to, i)))
    }
}

/// The byte run of a boolean value as text.
pub open spec fn bool_text(b: bool) -> Seq<u8> {
    if b {
        seq![0x31u8]
    } else {
        seq![0x30u8]
    }
}

/// The text cell a boolean-to-text cast writes at index `i`.
pub open spec fn bool_to_text_cell(m: ArrayModel, i: int) -> Option<Seq<u8>>
    recommends
        m.dtype == LogicalType::Boolean,
{
    if m.valid_at(i) {
        Option::Some(bool_text(m.bool_at(i)))
    } else {
        Option::None
    }
}

/// The array a boolean-to-text cast returns: `true` becomes `"1"`, `false`
/// becomes `"0"`.
pub open spec fn bool_to_string_model(m: ArrayModel) -> ArrayModel
    recommends
        m.dtype == LogicalType::Boolean,
{
    fresh_texts(Seq::new(m.len, |i: int| bool_to_text_cell(m, i)))
}

/// Converts every element of a numeric array to a boolean: zero becomes
/// `false`, anything else `true`, null stays null.
pub fn numeric_to_bool_cast(from: &ColumnarArray) -> (r: Result<ColumnarArray, CastError>)
    requires
        from@.wf(),
        from@.dtype.is_numeric(),
    ensures
        r matches Ok(out) && out@ == numeric_to_bool_model(from@) && out@.wf(),
{
    let n = from.length();
    let int_source = from.data_type().is_integer_kind();
    let f32_source = from.data_type().eq_type(&LogicalType::Float32);
    let mut b = BooleanBuilder::new();
    let mut i: usize = 0;
    while i < n
        invariant
            from@.wf(),
            from@.dtype.is_numeric(),
            int_source == from@.dtype.is_integer(),
            f32_source == (from@.dtype == LogicalType::Float32),
            n == from@.len,
            i <= n,
            b.inv(),
            b.cells() == Seq::new(i as nat, |k: int| to_bool_cell(from@, k)),
        decreases n - i,
    {
        if from.is_null(i) {
            b.append_null();
        } else if int_source {
            let v = from.value_int(i);
            b.append_value(v != 0);
        } else {
            let bits = from.value_float_bits(i);
            let nz = if f32_source {
                bits & 0x7fff_ffff != 0
            } else {
                bits & 0x7fff_ffff_ffff_ffff != 0
            };
            b.append_value(nz);
        }
        proof {
            assert(b.cells() =~= Seq::new((i + 1) as nat, |k: int| to_bool_cell(from@, k)));
        }
        i = i + 1;
    }
    Ok(b.finish())
}

/// Routes a shared numeric array through [`numeric_to_bool_cast`].
pub fn cast_numeric_to_bool(array: &ArrayRef) -> (r: Result<ArrayRef, CastError>)
    requires
        array@.wf(),
        array@.dtype.is_numeric(),
    ensures
        r matches Ok(out) && out@ == numeric_to_bool_model(array@) && out@.wf(),
{
    match numeric_to_bool_cast(&**array) {
        Ok(out) => Ok(Arc::new(out)),
        Err(e) => Err(e),
    }
}

/// Converts every element of a boolean array to the target numeric type:
/// `true` becomes one, `false` the type's zero, null stays null.
pub fn bool_to_numeric_cast(from: &ColumnarArray, to_type: &LogicalType) -> (r: Result<
    ColumnarArray,
    CastError,
>)
    requires
        from@.wf(),
        from@.dtype == LogicalType::Boolean,
        to_type.is_numeric(),
    ensures
        r matches Ok(out) && out@ == bool_to_numeric_model(from@, *to_type) && out@.wf(),
{
    let n = from.length();
    if to_type.is_integer_kind() {
        let mut b = PrimitiveBuilder::new(to_type.duplicate());
        let mut i: usize = 0;
        while i < n
            invariant
                from@.wf(),
                from@.dtype == LogicalType::Boolean,
                to_type.is_integer(),
                n == from@.len,
                i <= n,
                b.inv(),
                b.target() == *to_type,
                b.cells() == Seq::new(i as nat, |k: int| bool_to_int_cell(from@, k)),
            decreases n - i,
        {
            if from.is_null(i) {
                b.append_null();
            } else if from.value_bool(i) {
                proof {
                    assert(to_type.int_min() <= 1 <= to_type.int_max());
                }
                b.append_value(1);
            } else {
                proof {
                    assert(to_type.int_min() <= 0 <= to_type.int_max());
                }
                b.append_value(0);
            }
            proof {
                assert(b.cells() =~= Seq::new((i + 1) as nat,
                    |k: int| bool_to_int_cell(from@, k)));
            }
            i = i + 1;
        }
        Ok(b.finish())
    } else {
        let one: u64 = if to_type.eq_type(&LogicalType::Float32) {
            0x3f80_0000
        } else {
            0x3ff0_0000_0000_0000
        };
        let mut b = FloatBuilder::new(to_type.duplicate());
        let mut i: usize = 0;
        while i < n
            invariant
                from@.wf(),
                from@.dtype == LogicalType::Boolean,
                to_type.is_float(),
                one == float_one(*to_type),
                n == from@.len,
                i <= n,
                b.inv(),
                b.target() == *to_type,
                b.cells() == Seq::new(i as nat, |k: int| bool_to_float_cell(from@, *to_type, k)),
            decreases n - i,
        {
            if from.is_null(i) {
                b.append_null();
            } else if from.value_bool(i) {
                b.append_value(one);
            } else {
                b.append_value(0);
            }
            proof {
                assert(b.cells() =~= Seq::new((i + 1) as nat,
                    |k: int| bool_to_float_cell(from@, *to_type, k)));
            }
            i = i + 1;
        }
        Ok(b.finish())
    }
}

/// Routes a shared boolean array through [`bool_to_numeric_cast`].
pub fn cast_bool_to_numeric(from: &ArrayRef, to_type: &LogicalType) -> (r: Result<
    ArrayRef,
    CastError,
>)
    requires
        from@.wf(),
        from@.dtype == LogicalType::Boolean,
        to_type.is_numeric(),
    ensures
        r matches Ok(out) && out@ == bool_to_numeric_model(from@, *to_type) && out@.wf(),
{
    match bool_to_numeric_cast(&**from, to_type) {
        Ok(out) => Ok(Arc::new(out)),
        Err(e) => Err(e),
    }
}

/// Converts every element of a boolean array to its one-character text.
pub fn bool_to_string_cast(from: &ColumnarArray) -> (r: Result<ColumnarArray, CastError>)
    requires
        from@.wf(),
        from@.dtype == LogicalType::Boolean,
    ensures
        r matches Ok(out) && out@ == bool_to_string_model(from@) && out@.wf(),
{
    let n = from.length();
    let mut one_run: Vec<u8> = Vec::new();
    one_run.push(0x31);
    let mut zero_run: Vec<u8> = Vec::new();
    zero_run.push(0x30);
    proof {
        assert(one_run@ =~= bool_text(true));
        assert(zero_run@ =~= bool_text(false));
    }
    let mut b = BinaryBuilder::new();
    let mut i: usize = 0;
    while i < n
        invariant
            from@.wf(),
            from@.dtype == LogicalType::Boolean,
            one_run@ == bool_text(true),
            zero_run@ == bool_text(false),
            n == from@.len,
            i <= n,
            b.inv(),
            b.cells() == Seq::new(i as nat, |k: int| bool_to_text_cell(from@, k)),
        decreases n - i,
    {
        if from.is_null(i) {
            b.append_null();
        } else if from.value_bool(i) {
            b.append_bytes(&one_run);
        } else {
            b.append_bytes(&zero_run);
        }
        proof {
            assert(b.cells() =~= Seq::new((i + 1) as nat, |k: int| bool_to_text_cell(from@, k)));
        }
        i = i + 1;
    }
    Ok(b.finish())
}

} // verus!
