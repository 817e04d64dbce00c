//! Element-wise conversion between integer columns and text columns.
//!
//! Integers format as plain decimal digits with an optional leading minus
//! sign. Text parses as an optional sign followed by decimal digits; any
//! other content, an out-of-range value, and in particular any byte run
//! that is not ASCII decimal syntax (which covers invalid encodings)
//! degrades to a null element, never to a failure of the whole cast.

use vstd::prelude::*;
use std::sync::Arc;
use crate::types::LogicalType;
use crate::array::{ArrayModel, ArrayRef, ColumnarArray};
use crate::builder::{fresh_ints, fresh_texts, opt_int, BinaryBuilder, PrimitiveBuilder};
use crate::error::CastError;
use crate::numeric::int_convert;

verus! {

/// The ASCII byte of one decimal digit.
pub open spec fn digit_byte(d: int) -> u8
    recommends
        0 <= d < 10,
{
    (0x30 + d) as u8
}

/// The decimal digits of a non-negative number, most significant first.
pub open spec fn dec_digits(n: nat) -> Seq<u8>
    decreases n,
{
    if n < 10 {
        seq![digit_byte(n as int)]
    } else {
        dec_digits(n / 10) + seq![digit_byte((n % 10) as int)]
    }
}

/// The canonical decimal text of an integer.
pub open spec fn decimal_text(v: int) -> Seq<u8> {
    if v < 0 {
        seq![0x2du8] + dec_digits((-v) as nat)
    } else {
        dec_digits(v as nat)
    }
}

/// Whether a byte is an ASCII decimal digit.
pub open spec fn is_digit(b: u8) -> bool {
    0x30 <= b <= 0x39
}

/// Whether every byte of a run is an ASCII decimal digit.
pub open spec fn all_digits(s: Seq<u8>) -> bool {
    forall|i: int| 0 <= i < s.len() ==> is_digit(#[trigger] s[i])
}

/// The number a run of decimal digits denotes.
pub open spec fn digits_value(s: Seq<u8>) -> int
    decreases s.len(),
{
    if s.len() == 0 {
        0
    } else {
        digits_value(s.drop_last()) * 10 + (s.last() - 0x30)
    }
}

/// The number a non-empty all-digit run denotes, nothing otherwise.
pub open spec fn digits_opt(s: Seq<u8>) -> Option<int> {
    if s.len() == 0 || !all_digits(s) {
        Option::None
    } else {
        Option::Some(digits_value(s))
    }
}

/// Integer literal syntax: an optional single `+` or `-` sign followed by
/// one or more decimal digits denotes the signed number; anything else
/// denotes nothing.
pub open spec fn parse_decimal(s: Seq<u8>) -> Option<int> {
    if s.len() == 0 {
        Option::None
    } else if s[0] == 0x2d {
        match digits_opt(s.skip(1)) {
            Option::Some(v) => Option::Some(-v),
            Option::None => Option::None,
        }
    } else if s[0] == 0x2b {
        digits_opt(s.skip(1))
    } else {
        digits_opt(s)
    }
}

/// The integer cell one byte run parses into for a target type: unsigned
/// targets refuse a minus sign outright; otherwise the parsed number is
/// kept when the target can represent it and becomes null otherwise.
pub open spec fn parse_int_cell(s: Seq<u8>, to: LogicalType) -> Option<int>
    recommends
        to.is_integer(),
{
    if !to.is_signed() && s.len() > 0 && s[0] == 0x2d {
        Option::None
    } else {
        match parse_decimal(s) {
            Option::Some(v) => int_convert(v, to),
            Option::None => Option::None,
        }
    }
}

/// The text cell an integer-to-text cast writes at index `i`.
pub open spec fn to_text_cell(m: ArrayModel, i: int) -> Option<Seq<u8>>
    recommends
        m.payload is Ints,
{
    if m.valid_at(i) {
        Option::Some(decimal_text(m.int_at(i)))
    } else {
        Option::None
    }
}

/// The array an integer-to-text cast returns.
pub open spec fn numeric_to_string_model(m: ArrayModel) -> ArrayModel
    recommends
        m.payload is Ints,
{
    fresh_texts(Seq::new(m.len, |i: int| to_text_cell(m, i)))
}

/// The integer cell a text-to-integer cast writes at index `i`.
pub open spec fn from_text_cell(m: ArrayModel, to: LogicalType, i: int) -> Option<int>
    recommends
        m.payload is Texts,
        to.is_integer(),
{
    if m.valid_at(i) {
        parse_int_cell(m.text_at(i), to)
    } else {
        Option::None
    }
}

/// The array a text-to-integer cast returns.
pub open spec fn string_to_numeric_model(m: ArrayModel, to: LogicalType) -> ArrayModel
    recommends
        m.payload is Texts,
        to.is_integer(),
{
    fresh_ints(to, Seq::new(m.len, |i: int| from_text_cell(m, to, i)))
}

/// Appends the decimal digits of `m` to `out`, most significant first.
fn push_digits(m: u128, out: &mut Vec<u8>)
    ensures
        final(out)@ == old(out)@ + dec_digits(m as nat),
    decreases m,
{
    if m < 10 {
        out.push(0x30 + m as u8);
        proof {
            assert(final(out)@ =~= old(out)@ + dec_digits(m as nat));
        }
    } else {
        push_digits(m / 10, out);
        out.push(0x30 + (m % 10) as u8);
        proof {
            assert(final(out)@ =~= old(out)@ + dec_digits(m as nat));
        }
    }
}

/// The canonical decimal text of one integer value.
fn format_int(v: i128) -> (r: Vec<u8>)
    ensures
        r@ == decimal_text(v as int),
{
    let mut out: Vec<u8> = Vec::new();
    if v < 0 {
        let mag: u128 = ((-(v + 1)) as u128) + 1;
        proof {
            assert(mag as nat == (-(v as int)) as nat);
        }
        out.push(0x2d);
        push_digits(mag, &mut out);
        proof {
            assert(out@ =~= decimal_text(v as int));
        }
    } else {
        push_digits(v as u128, &mut out);
        proof {
            assert(out@ =~= decimal_text(v as int));
        }
    }
    out
}

/// Converts every element of an integer array to its decimal text.
pub fn numeric_to_string_cast(from: &ColumnarArray) -> (r: Result<ColumnarArray, CastError>)
    requires
        from@.wf(),
        from@.dtype.is_integer(),
    ensures
        r matches Ok(out) && out@ == numeric_to_string_model(from@) && out@.wf(),
{
    let n = from.length();
    let mut b = BinaryBuilder::new();
    let mut i: usize = 0;
    while i < n
        invariant
            from@.wf(),
            from@.dtype.is_integer(),
            n == from@.len,
            i <= n,
            b.inv(),
            b.cells() == Seq::new(i as nat, |k: int| to_text_cell(from@, k)),
        decreases n - i,
    {
        if from.is_null(i) {
            b.append_null();
        } else {
            let run = format_int(from.value_int(i));
            b.append_bytes(&run);
        }
        proof {
            assert(b.cells() =~= Seq::new((i + 1) as nat, |k: int| to_text_cell(from@, k)));
        }
        i = i + 1;
    }
    Ok(b.finish())
}

/// Routes a shared integer array through [`numeric_to_string_cast`].
pub fn cast_numeric_to_string(array: &ArrayRef) -> (r: Result<ArrayRef, CastError>)
    requires
        array@.wf(),
        array@.dtype.is_integer(),
    ensures
        r matches Ok(out) && out@ == numeric_to_string_model(array@) && out@.wf(),
{
    match numeric_to_string_cast(&**array) {
        Ok(out) => Ok(Arc::new(out)),
        Err(e) => Err(e),
    }
}

proof fn lemma_digits_prefix(s: Seq<u8>, k: int)
    requires
        all_digits(s),
        0 <= k <= s.len(),
    ensures
        0 <= digits_value(s.subrange(0, k)),
        digits_value(s.subrange(0, k)) <= digits_value(s),
    decreases s.len(),
{
    if s.len() == 0 {
        assert(s.subrange(0, k) =~= s);
    } else {
        let dl = s.drop_last();
        assert(all_digits(dl));
        if k == s.len() {
            assert(s.subrange(0, k) =~= s);
            lemma_digits_prefix(dl, dl.len() as int);
            assert(dl.subrange(0, dl.len() as int) =~= dl);
        } else {
            lemma_digits_prefix(dl, k);
            assert(s.subrange(0, k) =~= dl.subrange(0, k));
            lemma_digits_prefix(dl, dl.len() as int);
            assert(dl.subrange(0, dl.len() as int) =~= dl);
        }
    }
}

/// Parses one byte run as the target integer type: the cell the cast
/// stores, null for anything unparsable or out of range.
fn parse_in_range(s: &Vec<u8>, to_type: &LogicalType) -> (r: Option<i128>)
    requires
        to_type.is_integer(),
    ensures
        opt_int(r) == parse_int_cell(s@, *to_type),
{
    let n = s.len();
    if n == 0 {
        return Option::None;
    }
    let first = s[0];
    let neg = first == 0x2d;
    if neg && !to_type.is_signed_kind() {
        return Option::None;
    }
    let start: usize = if neg || first == 0x2b {
        1
    } else {
        0
    };
    if start >= n {
        return Option::None;
    }
    let ghost ds = s@.skip(start as int);
    proof {
        if start == 0 {
            assert(ds =~= s@);
        }
        assert(ds.len() == n - start);
    }
    let mut mag: u128 = 0;
    let mut k: usize = start;
    while k < n
        invariant
            to_type.is_integer(),
            n == s@.len(),
            0 < n,
            start <= k <= n,
            start < n,
            neg == (s@[0] == 0x2d),
            neg ==> to_type.is_signed(),
            (neg || s@[0] == 0x2b) ==> start == 1,
            (!neg && s@[0] != 0x2b) ==> start == 0,
            ds == s@.skip(start as int),
            start == 0 ==> ds == s@,
            mag <= u64::MAX,
            mag as int == digits_value(s@.subrange(start as int, k as int)),
            all_digits(s@.subrange(start as int, k as int)),
        decreases n - k,
    {
        let b = s[k];
        if b < 0x30 || b > 0x39 {
            proof {
                assert(ds[k - start] == b);
                assert(!all_digits(ds));
            }
            return Option::None;
        }
        let next: u128 = mag * 10 + (b - 0x30) as u128;
        proof {
            assert(s@.subrange(start as int, k + 1).drop_last() =~= s@.subrange(start as int,
                k as int));
            assert(next as int == digits_value(s@.subrange(start as int, k + 1)));
        }
        if next > 0xffff_ffff_ffff_ffff {
            // The digits seen already outgrow every integer kind; the rest
            // of the run can only leave the value unparsable or larger.
            if !all_digits_from(s, k + 1) {
                proof {
                    let j = choose|j: int| k + 1 <= j < n && !is_digit(s@[j]);
                    assert(!is_digit(ds[j - start]));
                    assert(!all_digits(ds));
                }
                return Option::None;
            }
            proof {
                assert forall|j: int| 0 <= j < ds.len() implies is_digit(#[trigger] ds[j]) by {
                    if j < k + 1 - start {
                        assert(ds[j] == s@.subrange(start as int, k + 1)[j]);
                    } else {
                        assert(ds[j] == s@[j + start]);
                    }
                }
                assert(s@.subrange(start as int, k + 1) =~= ds.subrange(0, k + 1 - start));
                lemma_digits_prefix(ds, k + 1 - start);
                assert(digits_value(ds) > u64::MAX);
                assert(to_type.int_max() <= u64::MAX);
                assert(to_type.int_min() >= i64::MIN);
            }
            return Option::None;
        }
        mag = next;
        k = k + 1;
    }
    proof {
        assert(s@.subrange(start as int, n as int) =~= ds);
    }
    let lo = to_type.int_min_value();
    let hi = to_type.int_max_value();
    let value: i128 = if neg {
        -(mag as i128)
    } else {
        mag as i128
    };
    if lo <= value && value <= hi {
        Option::Some(value)
    } else {
        Option::None
    }
}

/// Whether every byte from position `from_pos` on is a decimal digit.
fn all_digits_from(s: &Vec<u8>, from_pos: usize) -> (r: bool)
    requires
        from_pos <= s@.len(),
    ensures
        r == forall|j: int| from_pos <= j < s@.len() ==> is_digit(#[trigger] s@[j]),
{
    let n = s.len();
    let mut k = from_pos;
    while k < n
        invariant
            from_pos <= k <= n,
            n == s@.len(),
            forall|j: int| from_pos <= j < k ==> is_digit(#[trigger] s@[j]),
        decreases n - k,
    {
        let b = s[k];
        if b < 0x30 || b > 0x39 {
            return false;
        }
        k = k + 1;
    }
    true
}

/// Converts every element of a text array to the target integer type, with
/// unparsable or out-of-range content degrading to null.
pub fn string_to_numeric_cast(from: &ColumnarArray, to_type: &LogicalType) -> (r: Result<
    ColumnarArray,
    CastError,
>)
    requires
        from@.wf(),
        from@.dtype == LogicalType::Utf8,
        to_type.is_integer(),
    ensures
        r matches Ok(out) && out@ == string_to_numeric_model(from@, *to_type) && out@.wf(),
{
    let n = from.length();
    let mut b = PrimitiveBuilder::new(to_type.duplicate());
    let mut i: usize = 0;
    while i < n
        invariant
            from@.wf(),
            from@.dtype == LogicalType::Utf8,
            to_type.is_integer(),
            n == from@.len,
            i <= n,
            b.inv(),
            b.target() == *to_type,
            b.cells() == Seq::new(i as nat, |k: int| from_text_cell(from@, *to_type, k)),
        decreases n - i,
    {
        if from.is_null(i) {
            b.append_null();
        } else {
            let run = from.value_bytes(i);
            match parse_in_range(&run, to_type) {
                Option::Some(v) => b.append_value(v),
                Option::None => b.append_null(),
            }
        }
        proof {
            assert(b.cells() =~= Seq::new((i + 1) as nat,
                |k: int| from_text_cell(from@, *to_type, k)));
        }
        i = i + 1;
    }
    Ok(b.finish())
}

/// Routes a shared text array through [`string_to_numeric_cast`].
pub fn cast_string_to_numeric(from: &ArrayRef, to_type: &LogicalType) -> (r: Result<
    ArrayRef,
    CastError,
>)
    requires
        from@.wf(),
        from@.dtype == LogicalType::Utf8,
        to_type.is_integer(),
    ensures
        r matches Ok(out) && out@ == string_to_numeric_model(from@, *to_type) && out@.wf(),
{
    match string_to_numeric_cast(&**from, to_type) {
        Ok(out) => Ok(Arc::new(out)),
        Err(e) => Err(e),
    }
}

} // verus!
