//! Assembly of list-typed cast results.
//!
//! A list-to-list cast keeps the outer shape: the offset buffer is shared
//! unchanged, only the element array is replaced by the cast of the old
//! one. A promotion wraps a flat array into single-element lists with the
//! synthesized offsets `0, 1, ..., n`.
//!
//! Both results take their validity bitmap and their null count from the
//! cast *element* array, not from the source's outer validity. This
//! conflates element-level nulls with list-slot nulls; it is a known quirk
//! of the behaviour this crate implements, kept deliberately.

use vstd::prelude::*;
use std::sync::Arc;
use crate::types::LogicalType;
use crate::array::{ArrayModel, ArrayRef, ColumnarArray, Payload, PayloadModel};

verus! {

/// The array a list-to-list cast returns, given the cast element array `c`:
/// the outer window and offset buffer of `m` over the new elements, with
/// validity and null count taken from `c`.
pub open spec fn list_to_list_model(m: ArrayModel, to: LogicalType, c: ArrayModel) -> ArrayModel {
    ArrayModel {
        dtype: to,
        len: m.len,
        offset: m.offset,
        null_count: c.null_count,
        validity: c.validity,
        payload: PayloadModel::Lists { offsets: m.run_offsets(), child: Box::new(c) },
    }
}

/// The offsets `0, 1, ..., n` that give each of `n` list slots exactly one
/// element.
pub open spec fn promote_offsets(n: nat) -> Seq<int> {
    Seq::new(n + 1, |j: int| j)
}

/// The array a promotion cast returns, given the cast flat array `c`: one
/// element per list slot, with validity and null count taken from `c`.
pub open spec fn promote_model(m: ArrayModel, to: LogicalType, c: ArrayModel) -> ArrayModel {
    ArrayModel {
        dtype: to,
        len: m.len,
        offset: 0,
        null_count: c.null_count,
        validity: c.validity,
        payload: PayloadModel::Lists { offsets: promote_offsets(m.len), child: Box::new(c) },
    }
}

/// Builds the list-to-list result: shares the source's offset buffer and
/// wraps the cast element array.
pub fn wrap_list_result(array: &ArrayRef, to_type: &LogicalType, cast_child: ArrayRef) -> (r:
    ArrayRef)
    requires
        array@.wf(),
        array@.payload is Lists,
        to_type matches LogicalType::List(inner) && cast_child@.dtype == *inner,
        cast_child@.wf(),
        cast_child@.len == array@.list_child().len,
    ensures
        r@ == list_to_list_model(array@, *to_type, cast_child@),
        r@.wf(),
{
    let validity = cast_child.share_validity();
    let nulls = cast_child.null_count();
    let out = ColumnarArray {
        dtype: to_type.duplicate(),
        len: array.length(),
        offset: array.start_offset(),
        null_count: nulls,
        validity,
        payload: Payload::Lists { offsets: array.share_list_offsets(), child: cast_child },
    };
    proof {
        assert(out@ == list_to_list_model(array@, *to_type, cast_child@));
    }
    Arc::new(out)
}

/// Builds the promotion result: synthesizes the offsets `0, 1, ..., n` and
/// wraps the cast flat array.
pub fn wrap_promotion(array: &ArrayRef, to_type: &LogicalType, cast_flat: ArrayRef) -> (r:
    ArrayRef)
    requires
        array@.wf(),
        array@.offset == 0,
        to_type matches LogicalType::List(inner) && cast_flat@.dtype == *inner,
        cast_flat@.wf(),
        cast_flat@.len == array@.len,
    ensures
        r@ == promote_model(array@, *to_type, cast_flat@),
        r@.wf(),
{
    let n = array.length();
    let mut offsets: Vec<i32> = Vec::new();
    let mut j: usize = 0;
    while j <= n
        invariant
            n <= 0x7fff_ffff,
            j <= n + 1,
            offsets@.len() == j,
            forall|t: int| 0 <= t < j ==> #[trigger] offsets@[t] == t,
        decreases n + 1 - j,
    {
        offsets.push(j as i32);
        j = j + 1;
    }
    proof {
        assert(offsets@.map_values(|x: i32| x as int) =~= promote_offsets(array@.len));
    }
    let validity = cast_flat.share_validity();
    let nulls = cast_flat.null_count();
    let out = ColumnarArray {
        dtype: to_type.duplicate(),
        len: n,
        offset: 0,
        null_count: nulls,
        validity,
        payload: Payload::Lists { offsets: Arc::new(offsets), child: cast_flat },
    };
    proof {
        assert(out@ == promote_model(array@, *to_type, cast_flat@));
    }
    Arc::new(out)
}

} // verus!
