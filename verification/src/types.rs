//! Logical column types and their numeric ranges.

use vstd::prelude::*;

verus! {

/// Resolution of a timestamp column type. No conversion into or out of
/// timestamp columns is supported; the variants exist so that type pairs
/// involving them can be named in errors.
#[derive(Clone, Copy, Debug, PartialEq, Eq, Structural)]
pub enum TimeUnit {
    Second,
    Millisecond,
    Microsecond,
    Nanosecond,
}

/// The closed set of logical column types.
///
/// Integer-valued and float-valued kinds are the numeric kinds. Float
/// columns hold IEEE-754 bit patterns; this crate never interprets those
/// bits as real numbers, it only moves them and tests them for zero.
/// `Struct` columns are terminal: they can be neither source nor target of
/// a conversion, so nothing of their field layout is kept here.
#[derive(Debug, PartialEq, Eq)]
pub enum LogicalType {
    Boolean,
    Int8,
    Int16,
    Int32,
    Int64,
    UInt8,
    UInt16,
    UInt32,
    UInt64,
    Float32,
    Float64,
    Utf8,
    Timestamp(TimeUnit),
    List(Box<LogicalType>),
    Struct,
}

impl LogicalType {
    /// True of the fixed-width integer kinds.
    pub open spec fn is_integer(self) -> bool {
        match self {
            LogicalType::Int8
            | LogicalType::Int16
            | LogicalType::Int32
            | LogicalType::Int64
            | LogicalType::UInt8
            | LogicalType::UInt16
            | LogicalType::UInt32
            | LogicalType::UInt64 => true,
            _ => false,
        }
    }

    /// True of the signed integer kinds.
    pub open spec fn is_signed(self) -> bool {
        match self {
            LogicalType::Int8 | LogicalType::Int16 | LogicalType::Int32 | LogicalType::Int64
                => true,
            _ => false,
        }
    }

    /// True of the two float kinds.
    pub open spec fn is_float(self) -> bool {
        self == LogicalType::Float32 || self == LogicalType::Float64
    }

    /// True of every numeric kind, integer or float.
    pub open spec fn is_numeric(self) -> bool {
        self.is_integer() || self.is_float()
    }

    /// Smallest value an integer kind can represent.
    pub open spec fn int_min(self) -> int
        recommends
            self.is_integer(),
    {
        match self {
            LogicalType::Int8 => i8::MIN as int,
            LogicalType::Int16 => i16::MIN as int,
            LogicalType::Int32 => i32::MIN as int,
            LogicalType::Int64 => i64::MIN as int,
            _ => 0,
        }
    }

    /// Largest value an integer kind can represent.
    pub open spec fn int_max(self) -> int
        recommends
            self.is_integer(),
    {
        match self {
            LogicalType::Int8 => i8::MAX as int,
            LogicalType::Int16 => i16::MAX as int,
            LogicalType::Int32 => i32::MAX as int,
            LogicalType::Int64 => i64::MAX as int,
            LogicalType::UInt8 => u8::MAX as int,
            LogicalType::UInt16 => u16::MAX as int,
            LogicalType::UInt32 => u32::MAX as int,
            LogicalType::UInt64 => u64::MAX as int,
            _ => 0,
        }
    }

    /// Nesting depth of a type: zero for every flat type, one more than the
    /// element type's depth for a list. Bounds the recursion of the
    /// dispatcher.
    pub open spec fn depth(self) -> nat
        decreases self,
    {
        match self {
            LogicalType::List(inner) => inner.depth() + 1,
            _ => 0,
        }
    }

    /// The element type of a list type.
    pub open spec fn list_inner(self) -> LogicalType
        recommends
            self matches LogicalType::List(_),
    {
        match self {
            LogicalType::List(inner) => *inner,
            _ => arbitrary(),
        }
    }

    /// Structural equality of two types, decided at run time.
    pub fn eq_type(&self, other: &LogicalType) -> (r: bool)
        ensures
            r <==> *self == *other,
        decreases *self,
    {
        match (self, other) {
            (LogicalType::Boolean, LogicalType::Boolean) => true,
            (LogicalType::Int8, LogicalType::Int8) => true,
            (LogicalType::Int16, LogicalType::Int16) => true,
            (LogicalType::Int32, LogicalType::Int32) => true,
            (LogicalType::Int64, LogicalType::Int64) => true,
            (LogicalType::UInt8, LogicalType::UInt8) => true,
            (LogicalType::UInt16, LogicalType::UInt16) => true,
            (LogicalType::UInt32, LogicalType::UInt32) => true,
            (LogicalType::UInt64, LogicalType::UInt64) => true,
            (LogicalType::Float32, LogicalType::Float32) => true,
            (LogicalType::Float64, LogicalType::Float64) => true,
            (LogicalType::Utf8, LogicalType::Utf8) => true,
            (LogicalType::Timestamp(a), LogicalType::Timestamp(b)) => *a == *b,
            (LogicalType::List(a), LogicalType::List(b)) => a.eq_type(b),
            (LogicalType::Struct, LogicalType::Struct) => true,
            _ => false,
        }
    }

    /// A fresh copy that is equal to `self`.
    pub fn duplicate(&self) -> (r: LogicalType)
        ensures
            r == *self,
        decreases *self,
    {
        match self {
            LogicalType::Boolean => LogicalType::Boolean,
            LogicalType::Int8 => LogicalType::Int8,
            LogicalType::Int16 => LogicalType::Int16,
            LogicalType::Int32 => LogicalType::Int32,
            LogicalType::Int64 => LogicalType::Int64,
            LogicalType::UInt8 => LogicalType::UInt8,
            LogicalType::UInt16 => LogicalType::UInt16,
            LogicalType::UInt32 => LogicalType::UInt32,
            LogicalType::UInt64 => LogicalType::UInt64,
            LogicalType::Float32 => LogicalType::Float32,
            LogicalType::Float64 => LogicalType::Float64,
            LogicalType::Utf8 => LogicalType::Utf8,
            LogicalType::Timestamp(u) => LogicalType::Timestamp(*u),
            LogicalType::List(inner) => LogicalType::List(Box::new(inner.duplicate())),
            LogicalType::Struct => LogicalType::Struct,
        }
    }

    /// Run-time test for the integer kinds, mirroring [`Self::is_integer`].
    pub fn is_integer_kind(&self) -> (r: bool)
        ensures
            r == self.is_integer(),
    {
        match self {
            LogicalType::Int8
            | LogicalType::Int16
            | LogicalType::Int32
            | LogicalType::Int64
            | LogicalType::UInt8
            | LogicalType::UInt16
            | LogicalType::UInt32
            | LogicalType::UInt64 => true,
            _ => false,
        }
    }

    /// Run-time test for the signed kinds, mirroring [`Self::is_signed`].
    pub fn is_signed_kind(&self) -> (r: bool)
        ensures
            r == self.is_signed(),
    {
        match self {
            LogicalType::Int8 | LogicalType::Int16 | LogicalType::Int32 | LogicalType::Int64
                => true,
            _ => false,
        }
    }

    /// Run-time test for the float kinds, mirroring [`Self::is_float`].
    pub fn is_float_kind(&self) -> (r: bool)
        ensures
            r == self.is_float(),
    {
        match self {
            LogicalType::Float32 | LogicalType::Float64 => true,
            _ => false,
        }
    }

    /// Run-time test for the numeric kinds, mirroring [`Self::is_numeric`].
    pub fn is_numeric_kind(&self) -> (r: bool)
        ensures
            r == self.is_numeric(),
    {
        self.is_integer_kind() || self.is_float_kind()
    }

    /// The lower range bound of an integer kind as a machine value.
    pub fn int_min_value(&self) -> (r: i128)
        requires
            self.is_integer(),
        ensures
            r as int == self.int_min(),
    {
        match self {
            LogicalType::Int8 => i8::MIN as i128,
            LogicalType::Int16 => i16::MIN as i128,
            LogicalType::Int32 => i32::MIN as i128,
            LogicalType::Int64 => i64::MIN as i128,
            _ => 0,
        }
    }

    /// The upper range bound of an integer kind as a machine value.
    pub fn int_max_value(&self) -> (r: i128)
        requires
            self.is_integer(),
        ensures
            r as int == self.int_max(),
    {
        match self {
            LogicalType::Int8 => i8::MAX as i128,
            LogicalType::Int16 => i16::MAX as i128,
            LogicalType::Int32 => i32::MAX as i128,
            LogicalType::Int64 => i64::MAX as i128,
            LogicalType::UInt8 => u8::MAX as i128,
            LogicalType::UInt16 => u16::MAX as i128,
            LogicalType::UInt32 => u32::MAX as i128,
            LogicalType::UInt64 => u64::MAX as i128,
            _ => 0,
        }
    }
}

} // verus!
