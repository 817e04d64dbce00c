//! Transient builders that accumulate cells and finalize them into fresh
//! immutable arrays.
//!
//! A cell is one logical element: a value, or null. Every builder is
//! exclusively owned by the call that creates it, and a finished array has
//! offset zero, a validity bitmap of exactly its length, a zero (or empty)
//! stored value under every null cell, and a recorded null count equal to
//! the number of null cells.

use vstd::prelude::*;
use std::sync::Arc;
use crate::types::LogicalType;
use crate::array::{lemma_offsets_window, offsets_ok, ArrayModel, ArrayRef, ColumnarArray, Payload, PayloadModel};

verus! {

/// How many entries of a bitmap are unset.
pub open spec fn count_false(s: Seq<bool>) -> nat
    decreases s.len(),
{
    if s.len() == 0 {
        0
    } else {
        count_false(s.drop_last()) + if s.last() {
            0nat
        } else {
            1nat
        }
    }
}

/// The validity bitmap a sequence of cells induces.
pub open spec fn valid_of<A>(s: Seq<Option<A>>) -> Seq<bool> {
    Seq::new(s.len(), |i: int| s[i] is Some)
}

/// The stored values a sequence of cells induces, with `dflt` under nulls.
pub open spec fn values_of<A>(s: Seq<Option<A>>, dflt: A) -> Seq<A> {
    Seq::new(
        s.len(),
        |i: int|
            match s[i] {
                Option::Some(v) => v,
                Option::None => dflt,
            },
    )
}

/// A machine integer cell as a mathematical one.
pub open spec fn opt_int(c: Option<i128>) -> Option<int> {
    match c {
        Option::Some(v) => Option::Some(v as int),
        Option::None => Option::None,
    }
}

/// The fresh integer array a cell sequence finalizes into.
pub open spec fn fresh_ints(dtype: LogicalType, cells: Seq<Option<int>>) -> ArrayModel {
    ArrayModel {
        dtype: dtype,
        len: cells.len(),
        offset: 0,
        null_count: count_false(valid_of(cells)),
        validity: Option::Some(valid_of(cells)),
        payload: PayloadModel::Ints(values_of(cells, 0)),
    }
}

/// The fresh boolean array a cell sequence finalizes into.
pub open spec fn fresh_bools(cells: Seq<Option<bool>>) -> ArrayModel {
    ArrayModel {
        dtype: LogicalType::Boolean,
        len: cells.len(),
        offset: 0,
        null_count: count_false(valid_of(cells)),
        validity: Option::Some(valid_of(cells)),
        payload: PayloadModel::Bools(values_of(cells, false)),
    }
}

/// The fresh float array a cell sequence of bit patterns finalizes into.
pub open spec fn fresh_floats(dtype: LogicalType, cells: Seq<Option<u64>>) -> ArrayModel {
    ArrayModel {
        dtype: dtype,
        len: cells.len(),
        offset: 0,
        null_count: count_false(valid_of(cells)),
        validity: Option::Some(valid_of(cells)),
        payload: PayloadModel::FloatBits(values_of(cells, 0u64)),
    }
}

/// The byte run of a text cell; a null cell holds no bytes.
pub open spec fn cell_bytes(c: Option<Seq<u8>>) -> Seq<u8> {
    match c {
        Option::Some(b) => b,
        Option::None => Seq::empty(),
    }
}

/// All byte runs of a text cell sequence, concatenated in order.
pub open spec fn text_bytes_of(cells: Seq<Option<Seq<u8>>>) -> Seq<u8>
    decreases cells.len(),
{
    if cells.len() == 0 {
        Seq::empty()
    } else {
        text_bytes_of(cells.drop_last()) + cell_bytes(cells.last())
    }
}

/// The offset buffer delimiting the runs of a text cell sequence.
pub open spec fn text_offsets_of(cells: Seq<Option<Seq<u8>>>) -> Seq<int>
    decreases cells.len(),
{
    if cells.len() == 0 {
        seq![0int]
    } else {
        text_offsets_of(cells.drop_last()).push(text_bytes_of(cells).len() as int)
    }
}

/// The fresh text array a cell sequence finalizes into.
pub open spec fn fresh_texts(cells: Seq<Option<Seq<u8>>>) -> ArrayModel {
    ArrayModel {
        dtype: LogicalType::Utf8,
        len: cells.len(),
        offset: 0,
        null_count: count_false(valid_of(cells)),
        validity: Option::Some(valid_of(cells)),
        payload: PayloadModel::Texts {
            offsets: text_offsets_of(cells),
            bytes: text_bytes_of(cells),
        },
    }
}

/// Accumulates integer cells for one target integer type.
pub struct PrimitiveBuilder {
    pub dtype: LogicalType,
    pub values: Vec<i128>,
    pub validity: Vec<bool>,
    pub nulls: usize,
}

impl PrimitiveBuilder {
    /// The integer type being built.
    pub open spec fn target(self) -> LogicalType {
        self.dtype
    }

    /// The cells appended so far.
    pub open spec fn cells(self) -> Seq<Option<int>> {
        Seq::new(
            self.values@.len(),
            |i: int|
                if self.validity@[i] {
                    Option::Some(self.values@[i] as int)
                } else {
                    Option::None
                },
        )
    }

    /// The builder's internal consistency.
    pub open spec fn inv(self) -> bool {
        &&& self.dtype.is_integer()
        &&& self.validity@.len() == self.values@.len()
        &&& self.values@.len() <= 0x7fff_ffff
        &&& self.nulls <= self.values@.len()
        &&& self.nulls as nat == count_false(self.validity@)
        &&& forall|i: int|
            0 <= i < self.values@.len() ==> self.dtype.int_min() <= #[trigger] self.values@[i] as int
                <= self.dtype.int_max()
        &&& forall|i: int|
            0 <= i < self.values@.len() ==> (!self.validity@[i] ==> #[trigger] self.values@[i]
                == 0)
    }

    /// An empty builder for the given integer type.
    pub fn new(dtype: LogicalType) -> (r: PrimitiveBuilder)
        requires
            dtype.is_integer(),
        ensures
            r.inv(),
            r.target() == dtype,
            r.cells() == Seq::<Option<int>>::empty(),
    {
        let b = PrimitiveBuilder { dtype, values: Vec::new(), validity: Vec::new(), nulls: 0 };
        proof {
            assert(b.cells() =~= Seq::<Option<int>>::empty());
        }
        b
    }

    /// Appends one non-null value, which must lie in the target's range.
    pub fn append_value(&mut self, v: i128)
        requires
            old(self).inv(),
            old(self).target().int_min() <= v as int <= old(self).target().int_max(),
            old(self).cells().len() < 0x7fff_ffff,
        ensures
            final(self).inv(),
            final(self).target() == old(self).target(),
            final(self).cells() == old(self).cells().push(Option::Some(v as int)),
    {
        self.values.push(v);
        self.validity.push(true);
        proof {
            assert(self.validity@.drop_last() =~= old(self).validity@);
            assert(self.cells() =~= old(self).cells().push(Option::Some(v as int)));
        }
    }

    /// Appends one null cell.
    pub fn append_null(&mut self)
        requires
            old(self).inv(),
            old(self).cells().len() < 0x7fff_ffff,
        ensures
            final(self).inv(),
            final(self).target() == old(self).target(),
            final(self).cells() == old(self).cells().push(Option::None),
    {
        proof {
            assert(self.dtype.int_min() <= 0 <= self.dtype.int_max());
        }
        self.values.push(0);
        self.validity.push(false);
        self.nulls = self.nulls + 1;
        proof {
            assert(self.validity@.drop_last() =~= old(self).validity@);
            assert(self.cells() =~= old(self).cells().push(Option::None));
        }
    }

    /// Finalizes the cells into an immutable integer array.
    pub fn finish(self) -> (r: ColumnarArray)
        requires
            self.inv(),
        ensures
            r@ == fresh_ints(self.target(), self.cells()),
            r@.wf(),
    {
        let ghost pre = self;
        let PrimitiveBuilder { dtype, values, validity, nulls } = self;
        let len = values.len();
        let r = ColumnarArray {
            dtype,
            len,
            offset: 0,
            null_count: nulls,
            validity: Option::Some(Arc::new(validity)),
            payload: Payload::Ints(Arc::new(values)),
        };
        proof {
            assert(valid_of(pre.cells()) =~= pre.validity@);
            assert(values_of(pre.cells(), 0) =~= pre.values@.map_values(|x: i128| x as int));
            assert(r@ == fresh_ints(pre.target(), pre.cells()));
        }
        r
    }
}


/// Accumulates boolean cells.
pub struct BooleanBuilder {
    pub values: Vec<bool>,
    pub validity: Vec<bool>,
    pub nulls: usize,
}

impl BooleanBuilder {
    /// The cells appended so far.
    pub open spec fn cells(self) -> Seq<Option<bool>> {
        Seq::new(
            self.values@.len(),
            |i: int|
                if self.validity@[i] {
                    Option::Some(self.values@[i])
                } else {
                    Option::None
                },
        )
    }

    /// The builder's internal consistency.
    pub open spec fn inv(self) -> bool {
        &&& self.validity@.len() == self.values@.len()
        &&& self.values@.len() <= 0x7fff_ffff
        &&& self.nulls <= self.values@.len()
        &&& self.nulls as nat == count_false(self.validity@)
        &&& forall|i: int|
            0 <= i < self.values@.len() ==> (!self.validity@[i] ==> #[trigger] self.values@[i]
                == false)
    }

    /// An empty boolean builder.
    pub fn new() -> (r: BooleanBuilder)
        ensures
            r.inv(),
            r.cells() == Seq::<Option<bool>>::empty(),
    {
        let b = BooleanBuilder { values: Vec::new(), validity: Vec::new(), nulls: 0 };
        proof {
            assert(b.cells() =~= Seq::<Option<bool>>::empty());
        }
        b
    }

    /// Appends one non-null value.
    pub fn append_value(&mut self, v: bool)
        requires
            old(self).inv(),
            old(self).cells().len() < 0x7fff_ffff,
        ensures
            final(self).inv(),
            final(self).cells() == old(self).cells().push(Option::Some(v)),
    {
        self.values.push(v);
        self.validity.push(true);
        proof {
            assert(self.validity@.drop_last() =~= old(self).validity@);
            assert(self.cells() =~= old(self).cells().push(Option::Some(v)));
        }
    }

    /// Appends one null cell.
    pub fn append_null(&mut self)
        requires
            old(self).inv(),
            old(self).cells().len() < 0x7fff_ffff,
        ensures
            final(self).inv(),
            final(self).cells() == old(self).cells().push(Option::None),
    {
        self.values.push(false);
        self.validity.push(false);
        self.nulls = self.nulls + 1;
        proof {
            assert(self.validity@.drop_last() =~= old(self).validity@);
            assert(self.cells() =~= old(self).cells().push(Option::None));
        }
    }

    /// Finalizes the cells into an immutable boolean array.
    pub fn finish(self) -> (r: ColumnarArray)
        requires
            self.inv(),
        ensures
            r@ == fresh_bools(self.cells()),
            r@.wf(),
    {
        let ghost pre = self;
        let BooleanBuilder { values, validity, nulls } = self;
        let len = values.len();
        let r = ColumnarArray {
            dtype: LogicalType::Boolean,
            len,
            offset: 0,
            null_count: nulls,
            validity: Option::Some(Arc::new(validity)),
            payload: Payload::Bools(Arc::new(values)),
        };
        proof {
            assert(valid_of(pre.cells()) =~= pre.validity@);
            assert(values_of(pre.cells(), false) =~= pre.values@);
            assert(r@ == fresh_bools(pre.cells()));
        }
        r
    }
}

/// Accumulates float cells, as bit patterns, for one float type.
pub struct FloatBuilder {
    pub dtype: LogicalType,
    pub values: Vec<u64>,
    pub validity: Vec<bool>,
    pub nulls: usize,
}

impl FloatBuilder {
    /// The float type being built.
    pub open spec fn target(self) -> LogicalType {
        self.dtype
    }

    /// The cells appended so far.
    pub open spec fn cells(self) -> Seq<Option<u64>> {
        Seq::new(
            self.values@.len(),
            |i: int|
                if self.validity@[i] {
                    Option::Some(self.values@[i])
                } else {
                    Option::None
                },
        )
    }

    /// The builder's internal consistency.
    pub open spec fn inv(self) -> bool {
        &&& self.dtype.is_float()
        &&& self.validity@.len() == self.values@.len()
        &&& self.values@.len() <= 0x7fff_ffff
        &&& self.nulls <= self.values@.len()
        &&& self.nulls as nat == count_false(self.validity@)
        &&& self.dtype == LogicalType::Float32 ==> forall|i: int|
            0 <= i < self.values@.len() ==> #[trigger] self.values@[i] < 0x1_0000_0000
        &&& forall|i: int|
            0 <= i < self.values@.len() ==> (!self.validity@[i] ==> #[trigger] self.values@[i]
                == 0)
    }

    /// An empty builder for the given float type.
    pub fn new(dtype: LogicalType) -> (r: FloatBuilder)
        requires
            dtype.is_float(),
        ensures
            r.inv(),
            r.target() == dtype,
            r.cells() == Seq::<Option<u64>>::empty(),
    {
        let b = FloatBuilder { dtype, values: Vec::new(), validity: Vec::new(), nulls: 0 };
        proof {
            assert(b.cells() =~= Seq::<Option<u64>>::empty());
        }
        b
    }

    /// Appends one non-null bit pattern, narrow enough for the target.
    pub fn append_value(&mut self, v: u64)
        requires
            old(self).inv(),
            old(self).target() == LogicalType::Float32 ==> v < 0x1_0000_0000,
            old(self).cells().len() < 0x7fff_ffff,
        ensures
            final(self).inv(),
            final(self).target() == old(self).target(),
            final(self).cells() == old(self).cells().push(Option::Some(v)),
    {
        self.values.push(v);
        self.validity.push(true);
        proof {
            assert(self.validity@.drop_last() =~= old(self).validity@);
            assert(self.cells() =~= old(self).cells().push(Option::Some(v)));
        }
    }

    /// Appends one null cell.
    pub fn append_null(&mut self)
        requires
            old(self).inv(),
            old(self).cells().len() < 0x7fff_ffff,
        ensures
            final(self).inv(),
            final(self).target() == old(self).target(),
            final(self).cells() == old(self).cells().push(Option::None),
    {
        self.values.push(0);
        self.validity.push(false);
        self.nulls = self.nulls + 1;
        proof {
            assert(self.validity@.drop_last() =~= old(self).validity@);
            assert(self.cells() =~= old(self).cells().push(Option::None));
        }
    }

    /// Finalizes the cells into an immutable float array.
    pub fn finish(self) -> (r: ColumnarArray)
        requires
            self.inv(),
        ensures
            r@ == fresh_floats(self.target(), self.cells()),
            r@.wf(),
    {
        let ghost pre = self;
        let FloatBuilder { dtype, values, validity, nulls } = self;
        let len = values.len();
        let r = ColumnarArray {
            dtype,
            len,
            offset: 0,
            null_count: nulls,
            validity: Option::Some(Arc::new(validity)),
            payload: Payload::FloatBits(Arc::new(values)),
        };
        proof {
            assert(valid_of(pre.cells()) =~= pre.validity@);
            assert(values_of(pre.cells(), 0u64) =~= pre.values@);
            assert(r@ == fresh_floats(pre.target(), pre.cells()));
        }
        r
    }
}

/// Accumulates text cells: length-delimited byte runs over one byte buffer.
pub struct BinaryBuilder {
    pub offsets: Vec<usize>,
    pub bytes: Vec<u8>,
    pub validity: Vec<bool>,
    pub nulls: usize,
    pub history: Ghost<Seq<Option<Seq<u8>>>>,
}

impl BinaryBuilder {
    /// The cells appended so far.
    pub open spec fn cells(self) -> Seq<Option<Seq<u8>>> {
        self.history@
    }

    /// The builder's internal consistency.
    pub open spec fn inv(self) -> bool {
        &&& self.validity@.len() == self.history@.len()
        &&& self.history@.len() <= 0x7fff_ffff
        &&& self.nulls <= self.validity@.len()
        &&& self.nulls as nat == count_false(self.validity@)
        &&& self.offsets@.len() == self.history@.len() + 1
        &&& self.offsets@[0] == 0
        &&& self.offsets@[self.offsets@.len() - 1] == self.bytes@.len()
        &&& forall|j: int|
            0 <= j < self.history@.len() ==> #[trigger] self.offsets@[j] <= self.offsets@[j + 1]
        &&& self.bytes@ == text_bytes_of(self.history@)
        &&& self.offsets@.map_values(|x: usize| x as int) == text_offsets_of(self.history@)
        &&& self.validity@ == valid_of(self.history@)
    }

    /// An empty text builder.
    pub fn new() -> (r: BinaryBuilder)
        ensures
            r.inv(),
            r.cells() == Seq::<Option<Seq<u8>>>::empty(),
    {
        let mut offsets: Vec<usize> = Vec::new();
        offsets.push(0);
        let b = BinaryBuilder {
            offsets,
            bytes: Vec::new(),
            validity: Vec::new(),
            nulls: 0,
            history: Ghost(Seq::empty()),
        };
        proof {
            assert(b.offsets@.map_values(|x: usize| x as int) =~= text_offsets_of(b.history@));
            assert(b.validity@ =~= valid_of(b.history@));
            assert(b.bytes@ =~= text_bytes_of(b.history@));
        }
        b
    }

    /// Appends one non-null byte run.
    pub fn append_bytes(&mut self, run: &Vec<u8>)
        requires
            old(self).inv(),
            old(self).cells().len() < 0x7fff_ffff,
        ensures
            final(self).inv(),
            final(self).cells() == old(self).cells().push(Option::Some(run@)),
    {
        let n = run.len();
        let mut k: usize = 0;
        while k < n
            invariant
                k <= n,
                n == run@.len(),
                self.bytes@ == old(self).bytes@ + run@.subrange(0, k as int),
                self.offsets == old(self).offsets,
                self.validity == old(self).validity,
                self.nulls == old(self).nulls,
                self.history == old(self).history,
            decreases n - k,
        {
            self.bytes.push(run[k]);
            proof {
                assert(self.bytes@ =~= old(self).bytes@ + run@.subrange(0, k + 1));
            }
            k = k + 1;
        }
        self.offsets.push(self.bytes.len());
        self.validity.push(true);
        proof {
            self.history@ = self.history@.push(Option::Some(run@));
        }
        proof {
            let h = self.history@;
            let hp = old(self).history@;
            assert(h.drop_last() =~= hp);
            assert(self.bytes@ =~= old(self).bytes@ + run@.subrange(0, run@.len() as int));
            assert(run@.subrange(0, run@.len() as int) =~= run@);
            assert(text_bytes_of(h) == text_bytes_of(hp) + cell_bytes(Option::Some(run@)));
            assert(self.bytes@ =~= text_bytes_of(h));
            assert(self.offsets@.map_values(|x: usize| x as int) =~= text_offsets_of(h));
            assert(self.validity@ =~= valid_of(h));
            assert(self.validity@.drop_last() =~= old(self).validity@);
        }
    }

    /// Appends one null cell, which holds no bytes.
    pub fn append_null(&mut self)
        requires
            old(self).inv(),
            old(self).cells().len() < 0x7fff_ffff,
        ensures
            final(self).inv(),
            final(self).cells() == old(self).cells().push(Option::None),
    {
        self.offsets.push(self.bytes.len());
        self.validity.push(false);
        self.nulls = self.nulls + 1;
        proof {
            self.history@ = self.history@.push(Option::None);
        }
        proof {
            let h = self.history@;
            let hp = old(self).history@;
            assert(h.drop_last() =~= hp);
            assert(text_bytes_of(h) == text_bytes_of(hp) + cell_bytes(Option::None));
            assert(self.bytes@ =~= text_bytes_of(h));
            assert(self.offsets@.map_values(|x: usize| x as int) =~= text_offsets_of(h));
            assert(self.validity@ =~= valid_of(h));
            assert(self.validity@.drop_last() =~= old(self).validity@);
        }
    }

    /// Finalizes the cells into an immutable text array.
    pub fn finish(self) -> (r: ColumnarArray)
        requires
            self.inv(),
        ensures
            r@ == fresh_texts(self.cells()),
            r@.wf(),
    {
        let ghost pre = self;
        let BinaryBuilder { offsets, bytes, validity, nulls, history } = self;
        let len = validity.len();
        let r = ColumnarArray {
            dtype: LogicalType::Utf8,
            len,
            offset: 0,
            null_count: nulls,
            validity: Option::Some(Arc::new(validity)),
            payload: Payload::Texts { offsets: Arc::new(offsets), bytes: Arc::new(bytes) },
        };
        proof {
            assert(r@ == fresh_texts(pre.cells()));
        }
        r
    }
}


/// A text cell as its mathematical byte run.
pub open spec fn opt_bytes(c: Option<Vec<u8>>) -> Option<Seq<u8>> {
    match c {
        Option::Some(b) => Option::Some(b@),
        Option::None => Option::None,
    }
}

/// What a valid sequence of integer cells for a type looks like: an integer
/// kind, a storable length, every value in the kind's range.
pub open spec fn int_cells_ok(dtype: LogicalType, cells: Seq<Option<i128>>) -> bool {
    &&& dtype.is_integer()
    &&& cells.len() <= 0x7fff_ffff
    &&& forall|i: int|
        0 <= i < cells.len() ==> (#[trigger] cells[i] matches Option::Some(v) ==> dtype.int_min()
            <= v as int <= dtype.int_max())
}

/// A fresh integer array from explicit cells; nothing when the cells do not
/// fit the type.
pub fn new_int_array(dtype: LogicalType, cells: Vec<Option<i128>>) -> (r: Option<ArrayRef>)
    ensures
        match r {
            Option::Some(a) => {
                &&& int_cells_ok(dtype, cells@)
                &&& a@ == fresh_ints(dtype, cells@.map_values(|c: Option<i128>| opt_int(c)))
                &&& a@.wf()
            },
            Option::None => !int_cells_ok(dtype, cells@),
        },
{
    if !dtype.is_integer_kind() {
        return Option::None;
    }
    let n = cells.len();
    if n > 0x7fff_ffff {
        return Option::None;
    }
    let lo = dtype.int_min_value();
    let hi = dtype.int_max_value();
    let mut b = PrimitiveBuilder::new(dtype.duplicate());
    let mut i: usize = 0;
    while i < n
        invariant
            dtype.is_integer(),
            n == cells@.len(),
            n <= 0x7fff_ffff,
            lo as int == dtype.int_min(),
            hi as int == dtype.int_max(),
            i <= n,
            b.inv(),
            b.target() == dtype,
            b.cells() == cells@.subrange(0, i as int).map_values(|c: Option<i128>| opt_int(c)),
            forall|k: int|
                0 <= k < i ==> (#[trigger] cells@[k] matches Option::Some(v) ==> dtype.int_min()
                    <= v as int <= dtype.int_max()),
        decreases n - i,
    {
        match cells[i] {
            Option::Some(v) => {
                if v < lo || v > hi {
                    return Option::None;
                }
                b.append_value(v);
            },
            Option::None => b.append_null(),
        }
        proof {
            assert(b.cells() =~= cells@.subrange(0, i + 1).map_values(
                |c: Option<i128>| opt_int(c)));
        }
        i = i + 1;
    }
    proof {
        assert(cells@.subrange(0, n as int) =~= cells@);
    }
    Option::Some(Arc::new(b.finish()))
}

/// A fresh boolean array from explicit cells; nothing when there are too
/// many to store.
pub fn new_bool_array(cells: Vec<Option<bool>>) -> (r: Option<ArrayRef>)
    ensures
        match r {
            Option::Some(a) => {
                &&& cells@.len() <= 0x7fff_ffff
                &&& a@ == fresh_bools(cells@)
                &&& a@.wf()
            },
            Option::None => cells@.len() > 0x7fff_ffff,
        },
{
    let n = cells.len();
    if n > 0x7fff_ffff {
        return Option::None;
    }
    let mut b = BooleanBuilder::new();
    let mut i: usize = 0;
    while i < n
        invariant
            n == cells@.len(),
            n <= 0x7fff_ffff,
            i <= n,
            b.inv(),
            b.cells() == cells@.subrange(0, i as int),
        decreases n - i,
    {
        match cells[i] {
            Option::Some(v) => b.append_value(v),
            Option::None => b.append_null(),
        }
        proof {
            assert(b.cells() =~= cells@.subrange(0, i + 1));
        }
        i = i + 1;
    }
    proof {
        assert(cells@.subrange(0, n as int) =~= cells@);
    }
    Option::Some(Arc::new(b.finish()))
}

/// What a valid sequence of float cells for a type looks like: a float
/// kind, a storable length, every bit pattern narrow enough for the kind.
pub open spec fn float_cells_ok(dtype: LogicalType, cells: Seq<Option<u64>>) -> bool {
    &&& dtype.is_float()
    &&& cells.len() <= 0x7fff_ffff
    &&& dtype == LogicalType::Float32 ==> forall|i: int|
        0 <= i < cells.len() ==> (#[trigger] cells[i] matches Option::Some(v) ==> v
            < 0x1_0000_0000)
}

/// A fresh float array from explicit bit-pattern cells; nothing when the
/// cells do not fit the type.
pub fn new_float_array(dtype: LogicalType, cells: Vec<Option<u64>>) -> (r: Option<ArrayRef>)
    ensures
        match r {
            Option::Some(a) => {
                &&& float_cells_ok(dtype, cells@)
                &&& a@ == fresh_floats(dtype, cells@)
                &&& a@.wf()
            },
            Option::None => !float_cells_ok(dtype, cells@),
        },
{
    if !dtype.is_float_kind() {
        return Option::None;
    }
    let n = cells.len();
    if n > 0x7fff_ffff {
        return Option::None;
    }
    let narrow = dtype.eq_type(&LogicalType::Float32);
    let mut b = FloatBuilder::new(dtype.duplicate());
    let mut i: usize = 0;
    while i < n
        invariant
            dtype.is_float(),
            narrow == (dtype == LogicalType::Float32),
            n == cells@.len(),
            n <= 0x7fff_ffff,
            i <= n,
            b.inv(),
            b.target() == dtype,
            b.cells() == cells@.subrange(0, i as int),
            forall|k: int|
                0 <= k < i ==> (dtype == LogicalType::Float32 ==> (#[trigger] cells@[k] matches
                    Option::Some(v) ==> v < 0x1_0000_0000)),
        decreases n - i,
    {
        match cells[i] {
            Option::Some(v) => {
                if narrow && v > 0xffff_ffff {
                    return Option::None;
                }
                b.append_value(v);
            },
            Option::None => b.append_null(),
        }
        proof {
            assert(b.cells() =~= cells@.subrange(0, i + 1));
        }
        i = i + 1;
    }
    proof {
        assert(cells@.subrange(0, n as int) =~= cells@);
    }
    Option::Some(Arc::new(b.finish()))
}

/// A fresh text array from explicit byte-run cells; nothing when there are
/// too many to store.
pub fn new_utf8_array(cells: Vec<Option<Vec<u8>>>) -> (r: Option<ArrayRef>)
    ensures
        match r {
            Option::Some(a) => {
                &&& cells@.len() <= 0x7fff_ffff
                &&& a@ == fresh_texts(cells@.map_values(|c: Option<Vec<u8>>| opt_bytes(c)))
                &&& a@.wf()
            },
            Option::None => cells@.len() > 0x7fff_ffff,
        },
{
    let n = cells.len();
    if n > 0x7fff_ffff {
        return Option::None;
    }
    let mut b = BinaryBuilder::new();
    let mut i: usize = 0;
    while i < n
        invariant
            n == cells@.len(),
            n <= 0x7fff_ffff,
            i <= n,
            b.inv(),
            b.cells() == cells@.subrange(0, i as int).map_values(
                |c: Option<Vec<u8>>| opt_bytes(c)),
        decreases n - i,
    {
        match &cells[i] {
            Option::Some(run) => b.append_bytes(run),
            Option::None => b.append_null(),
        }
        proof {
            assert(b.cells() =~= cells@.subrange(0, i + 1).map_values(
                |c: Option<Vec<u8>>| opt_bytes(c)));
        }
        i = i + 1;
    }
    proof {
        assert(cells@.subrange(0, n as int) =~= cells@);
    }
    Option::Some(Arc::new(b.finish()))
}

/// A struct-typed array of the given length. It has no conversion and no
/// readable values; it exists so that both refusals of struct casts can be
/// exercised.
pub fn new_struct_array(length: usize) -> (r: Option<ArrayRef>)
    ensures
        match r {
            Option::Some(a) => {
                &&& length <= 0x7fff_ffff
                &&& a@ == (ArrayModel {
                    dtype: LogicalType::Struct,
                    len: length as nat,
                    offset: 0,
                    null_count: 0,
                    validity: Option::None,
                    payload: PayloadModel::Opaque,
                })
                &&& a@.wf()
            },
            Option::None => length > 0x7fff_ffff,
        },
{
    if length > 0x7fff_ffff {
        return Option::None;
    }
    Option::Some(
        Arc::new(
            ColumnarArray {
                dtype: LogicalType::Struct,
                len: length,
                offset: 0,
                null_count: 0,
                validity: Option::None,
                payload: Payload::Opaque,
            },
        ),
    )
}

/// A fresh list array over an existing element array; nothing when the
/// offsets do not delimit `length` runs inside the element array or the
/// element array has a different type than asked.
pub fn new_list_array(
    inner: LogicalType,
    length: usize,
    offsets: Vec<i32>,
    child: ArrayRef,
    validity: Option<Vec<bool>>,
    null_count: usize,
) -> (r: Option<ArrayRef>)
    requires
        child@.wf(),
    ensures
        match r {
            Option::Some(a) => {
                &&& length <= 0x7fff_ffff
                &&& child@.dtype == inner
                &&& offsets_ok(offsets@.map_values(|x: i32| x as int), 0, length as nat,
                    child@.len)
                &&& a@ == (ArrayModel {
                    dtype: LogicalType::List(Box::new(inner)),
                    len: length as nat,
                    offset: 0,
                    null_count: null_count as nat,
                    validity: match validity {
                        Option::None => Option::None,
                        Option::Some(v) => Option::Some(v@),
                    },
                    payload: PayloadModel::Lists {
                        offsets: offsets@.map_values(|x: i32| x as int),
                        child: Box::new(child@),
                    },
                })
                &&& a@.wf()
            },
            Option::None => !(length <= 0x7fff_ffff && child@.dtype == inner && offsets_ok(
                offsets@.map_values(|x: i32| x as int),
                0,
                length as nat,
                child@.len,
            )),
        },
{
    let ghost mapped = offsets@.map_values(|x: i32| x as int);
    if length > 0x7fff_ffff {
        return Option::None;
    }
    if !child.data_type().eq_type(&inner) {
        return Option::None;
    }
    if offsets.len() < length + 1 {
        return Option::None;
    }
    if offsets[0] < 0 {
        proof {
            assert(mapped[0] == offsets@[0] as int);
        }
        return Option::None;
    }
    let last = offsets[length];
    if last < 0 || (last as usize) > child.length() {
        proof {
            assert(mapped[length as int] == offsets@[length as int] as int);
            if offsets_ok(mapped, 0, length as nat, child@.len) {
                lemma_offsets_window(mapped, 0, length as nat, child@.len, length as int);
            }
        }
        return Option::None;
    }
    let mut j: usize = 0;
    while j < length
        invariant
            length < offsets@.len(),
            mapped == offsets@.map_values(|x: i32| x as int),
            length as nat <= 0x7fff_ffff,
            child@.dtype == inner,
            j <= length,
            forall|t: int| 0 <= t < j ==> #[trigger] offsets@[t] <= offsets@[t + 1],
        decreases length - j,
    {
        if offsets[j] > offsets[j + 1] {
            proof {
                assert(mapped == offsets@.map_values(|x: i32| x as int));
                assert(mapped[j as int] == offsets@[j as int] as int);
                assert(mapped[j + 1] == offsets@[j + 1] as int);
                assert(!offsets_ok(mapped, 0, length as nat, child@.len));
            }
            return Option::None;
        }
        j = j + 1;
    }
    proof {
        assert forall|t: int| 0 <= t < length implies #[trigger] mapped[t] <= mapped[t + 1] by {
            assert(offsets@[t] <= offsets@[t + 1]);
        }
        assert(mapped[0] == offsets@[0] as int);
        assert(mapped[length as int] == offsets@[length as int] as int);
        assert(offsets_ok(mapped, 0, length as nat, child@.len));
    }
    let out = ColumnarArray {
        dtype: LogicalType::List(Box::new(inner)),
        len: length,
        offset: 0,
        null_count,
        validity: match validity {
            Option::Some(v) => Option::Some(Arc::new(v)),
            Option::None => Option::None,
        },
        payload: Payload::Lists { offsets: Arc::new(offsets), child },
    };
    Option::Some(Arc::new(out))
}

} // verus!
