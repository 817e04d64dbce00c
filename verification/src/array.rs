//! The immutable columnar array and its mathematical model.
//!
//! An array is a window of `len` logical elements starting at `offset`
//! within physical buffers that may be longer (and shared with other
//! arrays). The validity bitmap is physical as well: logical element `i`
//! is null exactly when a bit is present at physical position
//! `offset + i` and unset; a bitmap that is absent or too short to cover a
//! position leaves that element valid. How values are packed into storage
//! is outside this crate's concern: integer columns hold their values as
//! wide integers constrained to the column type's range, float columns
//! hold IEEE-754 bit patterns, text and list columns hold offset-delimited
//! runs over a byte buffer or a child array.

use vstd::prelude::*;
use std::sync::Arc;
use crate::types::LogicalType;
use crate::arc_clone;

verus! {

/// Shared handle to an immutable array.
pub type ArrayRef = Arc<ColumnarArray>;

/// The mathematical value of an array: every field an array has, with
/// buffers as sequences and numbers unbounded.
pub struct ArrayModel {
    pub dtype: LogicalType,
    pub len: nat,
    pub offset: nat,
    pub null_count: nat,
    pub validity: Option<Seq<bool>>,
    pub payload: PayloadModel,
}

/// The mathematical value of an array's value storage.
pub enum PayloadModel {
    Bools(Seq<bool>),
    Ints(Seq<int>),
    FloatBits(Seq<u64>),
    Texts { offsets: Seq<int>, bytes: Seq<u8> },
    Lists { offsets: Seq<int>, child: Box<ArrayModel> },
    Opaque,
}

/// An offset buffer delimits `len` runs inside a buffer of `bound`
/// elements: within the window it is monotone, starts at or above zero and
/// ends at or below the bound. Positions outside the window are
/// unconstrained, as a sliced array sees only its own window.
pub open spec fn offsets_ok(offsets: Seq<int>, offset: nat, len: nat, bound: nat) -> bool {
    &&& offsets.len() >= offset + len + 1
    &&& (forall|j: int| offset <= j < offset + len ==> #[trigger] offsets[j] <= offsets[j + 1])
    &&& 0 <= offsets[offset as int]
    &&& offsets[(offset + len) as int] <= bound
}

proof fn lemma_offsets_lower(offsets: Seq<int>, offset: nat, len: nat, bound: nat, j: int)
    requires
        offsets_ok(offsets, offset, len, bound),
        offset <= j <= offset + len,
    ensures
        offsets[offset as int] <= offsets[j],
    decreases j - offset,
{
    if j > offset {
        lemma_offsets_lower(offsets, offset, len, bound, j - 1);
    }
}

proof fn lemma_offsets_upper(offsets: Seq<int>, offset: nat, len: nat, bound: nat, j: int)
    requires
        offsets_ok(offsets, offset, len, bound),
        offset <= j <= offset + len,
    ensures
        offsets[j] <= offsets[(offset + len) as int],
    decreases offset + len - j,
{
    if j < offset + len {
        lemma_offsets_upper(offsets, offset, len, bound, j + 1);
    }
}

/// Every offset within the window lies between zero and the bound.
pub proof fn lemma_offsets_window(offsets: Seq<int>, offset: nat, len: nat, bound: nat, j: int)
    requires
        offsets_ok(offsets, offset, len, bound),
        offset <= j <= offset + len,
    ensures
        0 <= offsets[j] <= bound,
{
    lemma_offsets_lower(offsets, offset, len, bound, j);
    lemma_offsets_upper(offsets, offset, len, bound, j);
}

impl ArrayModel {
    /// Well-formedness: the type tag matches the payload shape, the window
    /// fits inside the physical buffers, integer values lie in the type's
    /// range, float bit patterns fit the type's width, and offset buffers
    /// delimit runs properly. The null count and the validity bitmap are
    /// data, not derived: a bitmap may be absent, and list results carry
    /// counts taken from their element arrays.
    pub open spec fn wf(self) -> bool
        decreases self,
    {
        &&& self.offset + self.len <= 0x7fff_ffff
        &&& match self.payload {
            PayloadModel::Bools(s) => {
                &&& self.dtype == LogicalType::Boolean
                &&& self.offset + self.len <= s.len()
            },
            PayloadModel::Ints(s) => {
                &&& self.dtype.is_integer()
                &&& self.offset + self.len <= s.len()
                &&& forall|i: int|
                    0 <= i < s.len() ==> self.dtype.int_min() <= #[trigger] s[i]
                        <= self.dtype.int_max()
            },
            PayloadModel::FloatBits(s) => {
                &&& self.dtype.is_float()
                &&& self.offset + self.len <= s.len()
                &&& self.dtype == LogicalType::Float32 ==> forall|i: int|
                    0 <= i < s.len() ==> #[trigger] s[i] < 0x1_0000_0000
            },
            PayloadModel::Texts { offsets, bytes } => {
                &&& self.dtype == LogicalType::Utf8
                &&& offsets_ok(offsets, self.offset, self.len, bytes.len())
            },
            PayloadModel::Lists { offsets, child } => {
                &&& self.dtype matches LogicalType::List(inner) && child.dtype == *inner
                &&& offsets_ok(offsets, self.offset, self.len, child.len)
                &&& child.wf()
            },
            PayloadModel::Opaque => self.dtype == LogicalType::Struct || self.dtype matches
                LogicalType::Timestamp(_),
        }
    }

    /// Whether logical element `i` is non-null.
    pub open spec fn valid_at(self, i: int) -> bool {
        match self.validity {
            Option::None => true,
            Option::Some(v) => self.offset + i >= v.len() || v[self.offset + i],
        }
    }

    /// The integer value of logical element `i` of an integer column.
    pub open spec fn int_at(self, i: int) -> int
        recommends
            self.payload is Ints,
    {
        match self.payload {
            PayloadModel::Ints(s) => s[self.offset + i],
            _ => 0,
        }
    }

    /// The value of logical element `i` of a boolean column.
    pub open spec fn bool_at(self, i: int) -> bool
        recommends
            self.payload is Bools,
    {
        match self.payload {
            PayloadModel::Bools(s) => s[self.offset + i],
            _ => false,
        }
    }

    /// The bit pattern of logical element `i` of a float column.
    pub open spec fn float_at(self, i: int) -> u64
        recommends
            self.payload is FloatBits,
    {
        match self.payload {
            PayloadModel::FloatBits(s) => s[self.offset + i],
            _ => 0,
        }
    }

    /// The byte run of logical element `i` of a text column.
    pub open spec fn text_at(self, i: int) -> Seq<u8>
        recommends
            self.payload is Texts,
    {
        match self.payload {
            PayloadModel::Texts { offsets, bytes } => bytes.subrange(
                offsets[self.offset + i],
                offsets[self.offset + i + 1],
            ),
            _ => Seq::empty(),
        }
    }

    /// The element array of a list column.
    pub open spec fn list_child(self) -> ArrayModel
        recommends
            self.payload is Lists,
    {
        match self.payload {
            PayloadModel::Lists { offsets, child } => *child,
            _ => arbitrary(),
        }
    }

    /// The offset buffer entry at window position `j` of a list column.
    pub open spec fn list_off(self, j: int) -> int
        recommends
            self.payload is Lists,
    {
        match self.payload {
            PayloadModel::Lists { offsets, child } => offsets[self.offset + j],
            _ => 0,
        }
    }

    /// The offset buffer of a list or text column.
    pub open spec fn run_offsets(self) -> Seq<int> {
        match self.payload {
            PayloadModel::Lists { offsets, child } => offsets,
            PayloadModel::Texts { offsets, bytes } => offsets,
            _ => Seq::empty(),
        }
    }
}

/// The number of nulls among the `count` logical elements of `m` starting
/// at logical position `start`.
pub open spec fn window_invalid_count(m: ArrayModel, start: int, count: int) -> nat
    decreases count,
{
    if count <= 0 {
        0
    } else {
        window_invalid_count(m, start, count - 1) + if m.valid_at(start + count - 1) {
            0nat
        } else {
            1nat
        }
    }
}

/// The view a slice of `count` elements starting at logical position
/// `start` exposes: the same buffers, a moved window, and an exact null
/// count for that window.
pub open spec fn slice_model(m: ArrayModel, start: nat, count: nat) -> ArrayModel {
    ArrayModel {
        dtype: m.dtype,
        len: count,
        offset: m.offset + start,
        null_count: window_invalid_count(m, start as int, count as int),
        validity: m.validity,
        payload: m.payload,
    }
}

/// An immutable columnar array. All buffers sit behind shared handles, so
/// cloning a handle, slicing, and reusing a buffer in a cast result never
/// copy element data.
pub struct ColumnarArray {
    pub dtype: LogicalType,
    pub len: usize,
    pub offset: usize,
    pub null_count: usize,
    pub validity: Option<Arc<Vec<bool>>>,
    pub payload: Payload,
}

/// The value storage of an array.
pub enum Payload {
    Bools(Arc<Vec<bool>>),
    Ints(Arc<Vec<i128>>),
    FloatBits(Arc<Vec<u64>>),
    Texts { offsets: Arc<Vec<usize>>, bytes: Arc<Vec<u8>> },
    Lists { offsets: Arc<Vec<i32>>, child: Arc<ColumnarArray> },
    Opaque,
}

/// The mathematical value of a payload.
pub open spec fn payload_model(p: Payload) -> PayloadModel
    decreases p,
{
    match p {
        Payload::Bools(s) => PayloadModel::Bools(s@),
        Payload::Ints(s) => PayloadModel::Ints(s@.map_values(|x: i128| x as int)),
        Payload::FloatBits(s) => PayloadModel::FloatBits(s@),
        Payload::Texts { offsets, bytes } => PayloadModel::Texts {
            offsets: offsets@.map_values(|x: usize| x as int),
            bytes: bytes@,
        },
        Payload::Lists { offsets, child } => PayloadModel::Lists {
            offsets: offsets@.map_values(|x: i32| x as int),
            child: Box::new(child.model()),
        },
        Payload::Opaque => PayloadModel::Opaque,
    }
}

impl ColumnarArray {
    /// The mathematical value of this array.
    pub open spec fn model(self) -> ArrayModel
        decreases self,
    {
        ArrayModel {
            dtype: self.dtype,
            len: self.len as nat,
            offset: self.offset as nat,
            null_count: self.null_count as nat,
            validity: match self.validity {
                Option::None => Option::None,
                Option::Some(v) => Option::Some(v@),
            },
            payload: payload_model(self.payload),
        }
    }
}

impl View for ColumnarArray {
    type V = ArrayModel;

    open spec fn view(&self) -> ArrayModel {
        self.model()
    }
}

impl ColumnarArray {
    /// Number of logical elements.
    pub fn length(&self) -> (r: usize)
        ensures
            r == self@.len,
    {
        self.len
    }

    /// Offset of the window into the physical buffers; non-zero for slices.
    pub fn start_offset(&self) -> (r: usize)
        ensures
            r == self@.offset,
    {
        self.offset
    }

    /// The recorded null count.
    pub fn null_count(&self) -> (r: usize)
        ensures
            r == self@.null_count,
    {
        self.null_count
    }

    /// The logical type of the elements.
    pub fn data_type(&self) -> (r: &LogicalType)
        ensures
            *r == self@.dtype,
    {
        &self.dtype
    }

    /// Whether logical element `i` is non-null.
    pub fn is_valid(&self, i: usize) -> (r: bool)
        requires
            self@.wf(),
            i < self@.len,
        ensures
            r == self@.valid_at(i as int),
    {
        match &self.validity {
            Option::None => true,
            Option::Some(v) => {
                let pos = self.offset + i;
                if pos < v.len() {
                    (*v)[pos]
                } else {
                    true
                }
            },
        }
    }

    /// Whether logical element `i` is null.
    pub fn is_null(&self, i: usize) -> (r: bool)
        requires
            self@.wf(),
            i < self@.len,
        ensures
            r == !self@.valid_at(i as int),
    {
        !self.is_valid(i)
    }

    /// The stored integer value of logical element `i`. For a null element
    /// this is whatever the storage holds (a freshly built array holds
    /// zero there).
    pub fn value_int(&self, i: usize) -> (r: i128)
        requires
            self@.wf(),
            self@.dtype.is_integer(),
            i < self@.len,
        ensures
            r as int == self@.int_at(i as int),
    {
        match &self.payload {
            Payload::Ints(s) => (*s)[self.offset + i],
            _ => unreached(),
        }
    }

    /// The stored value of logical element `i` of a boolean column.
    pub fn value_bool(&self, i: usize) -> (r: bool)
        requires
            self@.wf(),
            self@.dtype == LogicalType::Boolean,
            i < self@.len,
        ensures
            r == self@.bool_at(i as int),
    {
        match &self.payload {
            Payload::Bools(s) => (*s)[self.offset + i],
            _ => unreached(),
        }
    }

    /// The stored bit pattern of logical element `i` of a float column.
    pub fn value_float_bits(&self, i: usize) -> (r: u64)
        requires
            self@.wf(),
            self@.dtype.is_float(),
            i < self@.len,
        ensures
            r == self@.float_at(i as int),
    {
        match &self.payload {
            Payload::FloatBits(s) => (*s)[self.offset + i],
            _ => unreached(),
        }
    }

    /// A copy of the byte run of logical element `i` of a text column.
    pub fn value_bytes(&self, i: usize) -> (r: Vec<u8>)
        requires
            self@.wf(),
            self@.dtype == LogicalType::Utf8,
            i < self@.len,
        ensures
            r@ == self@.text_at(i as int),
    {
        match &self.payload {
            Payload::Texts { offsets, bytes } => {
                proof {
                    let m = self@;
                    let offs = m.payload->Texts_offsets;
                    lemma_offsets_window(offs, m.offset, m.len, m.payload->Texts_bytes.len(),
                        m.offset + i);
                    lemma_offsets_window(offs, m.offset, m.len, m.payload->Texts_bytes.len(),
                        m.offset + i + 1);
                }
                let lo = (*offsets)[self.offset + i];
                let hi = (*offsets)[self.offset + i + 1];
                let mut r: Vec<u8> = Vec::new();
                let mut k = lo;
                while k < hi
                    invariant
                        lo <= k <= hi,
                        hi <= bytes@.len(),
                        r@ == bytes@.subrange(lo as int, k as int),
                    decreases hi - k,
                {
                    r.push((*bytes)[k]);
                    proof {
                        assert(r@ =~= bytes@.subrange(lo as int, k + 1));
                    }
                    k = k + 1;
                }
                proof {
                    assert(r@ =~= self@.text_at(i as int));
                }
                r
            },
            _ => unreached(),
        }
    }

    /// The run start of list slot `i` in the child array.
    pub fn value_offset(&self, i: usize) -> (r: i32)
        requires
            self@.wf(),
            self@.dtype matches LogicalType::List(_),
            i < self@.len,
        ensures
            r as int == self@.list_off(i as int),
    {
        match &self.payload {
            Payload::Lists { offsets, child } => (*offsets)[self.offset + i],
            _ => unreached(),
        }
    }

    /// The run length of list slot `i`.
    pub fn value_length(&self, i: usize) -> (r: i32)
        requires
            self@.wf(),
            self@.dtype matches LogicalType::List(_),
            i < self@.len,
        ensures
            r as int == self@.list_off(i as int + 1) - self@.list_off(i as int),
    {
        match &self.payload {
            Payload::Lists { offsets, child } => {
                proof {
                    let m = self@;
                    let offs = m.run_offsets();
                    lemma_offsets_window(offs, m.offset, m.len, m.list_child().len, m.offset + i);
                    lemma_offsets_window(offs, m.offset, m.len, m.list_child().len,
                        m.offset + i + 1);
                }
                let lo = (*offsets)[self.offset + i];
                let hi = (*offsets)[self.offset + i + 1];
                hi - lo
            },
            _ => unreached(),
        }
    }

    /// A shared handle to the element array of a list column.
    pub fn list_values(&self) -> (r: ArrayRef)
        requires
            self@.wf(),
            self@.dtype matches LogicalType::List(_),
        ensures
            r@ == self@.list_child(),
    {
        match &self.payload {
            Payload::Lists { offsets, child } => arc_clone(child),
            _ => unreached(),
        }
    }

    /// A shared handle to this array's validity bitmap, if it has one.
    pub fn share_validity(&self) -> (r: Option<Arc<Vec<bool>>>)
        ensures
            match r {
                Option::None => self@.validity is None,
                Option::Some(v) => self@.validity == Option::Some(v@),
            },
    {
        match &self.validity {
            Option::None => Option::None,
            Option::Some(v) => Option::Some(arc_clone(v)),
        }
    }

    /// A shared handle to the offset buffer of a list column.
    pub fn share_list_offsets(&self) -> (r: Arc<Vec<i32>>)
        requires
            self@.payload is Lists,
        ensures
            r@.map_values(|x: i32| x as int) == self@.run_offsets(),
    {
        match &self.payload {
            Payload::Lists { offsets, child } => arc_clone(offsets),
            _ => unreached(),
        }
    }

    /// A copy of this array's payload that shares every buffer.
    fn share_payload(&self) -> (p: Payload)
        ensures
            payload_model(p) == self@.payload,
    {
        match &self.payload {
            Payload::Bools(v) => Payload::Bools(arc_clone(v)),
            Payload::Ints(v) => Payload::Ints(arc_clone(v)),
            Payload::FloatBits(v) => Payload::FloatBits(arc_clone(v)),
            Payload::Texts { offsets, bytes } => Payload::Texts {
                offsets: arc_clone(offsets),
                bytes: arc_clone(bytes),
            },
            Payload::Lists { offsets, child } => Payload::Lists {
                offsets: arc_clone(offsets),
                child: arc_clone(child),
            },
            Payload::Opaque => Payload::Opaque,
        }
    }

    /// A view of `count` elements starting at logical position `start`,
    /// sharing every buffer with this array; nothing when the window does
    /// not fit. The slice records the exact null count of its window.
    pub fn slice(&self, start: usize, count: usize) -> (r: Option<ArrayRef>)
        requires
            self@.wf(),
        ensures
            match r {
                Option::Some(a) => {
                    &&& start + count <= self@.len
                    &&& a@ == slice_model(self@, start as nat, count as nat)
                    &&& a@.wf()
                },
                Option::None => start + count > self@.len,
            },
    {
        if count > self.len || start > self.len - count {
            return Option::None;
        }
        let mut nulls: usize = 0;
        let mut k: usize = 0;
        while k < count
            invariant
                self@.wf(),
                start + count <= self@.len,
                k <= count,
                nulls <= k,
                nulls as nat == window_invalid_count(self@, start as int, k as int),
            decreases count - k,
        {
            if self.is_null(start + k) {
                nulls = nulls + 1;
            }
            k = k + 1;
        }
        let out = ColumnarArray {
            dtype: self.dtype.duplicate(),
            len: count,
            offset: self.offset + start,
            null_count: nulls,
            validity: self.share_validity(),
            payload: self.share_payload(),
        };
        proof {
            assert(out@ == slice_model(self@, start as nat, count as nat));
            let m = self@;
            let sm = out@;
            match m.payload {
                PayloadModel::Texts { offsets, bytes } => {
                    lemma_offsets_window(offsets, m.offset, m.len, bytes.len(),
                        m.offset + start);
                    lemma_offsets_window(offsets, m.offset, m.len, bytes.len(),
                        m.offset + start + count);
                },
                PayloadModel::Lists { offsets, child } => {
                    lemma_offsets_window(offsets, m.offset, m.len, child.len,
                        m.offset + start);
                    lemma_offsets_window(offsets, m.offset, m.len, child.len,
                        m.offset + start + count);
                },
                _ => {},
            }
            assert(sm.wf());
        }
        Option::Some(Arc::new(out))
    }

    /// The element type of a list column.
    pub fn value_type(&self) -> (r: LogicalType)
        requires
            self@.dtype matches LogicalType::List(_),
        ensures
            self@.dtype matches LogicalType::List(inner) && r == *inner,
    {
        match &self.dtype {
            LogicalType::List(inner) => inner.duplicate(),
            _ => unreached(),
        }
    }
}

} // verus!
