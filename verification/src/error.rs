//! The failure values a cast can return.

use vstd::prelude::*;
use vstd::string::StringExecFns;
use crate::types::{LogicalType, TimeUnit};

verus! {

/// Why a whole cast was refused. Per-element conversion failures are never
/// reported this way; they become null elements of the output instead.
#[derive(Debug, PartialEq, Eq)]
pub enum CastError {
    /// The source column is struct-typed.
    StructSource,
    /// The target type is a struct type.
    StructTarget,
    /// The source is a list but the target is not.
    ListToNonList,
    /// A list-promotion cast was asked of a sliced (non-zero offset) source.
    SlicedPromotion,
    /// The pair of source and target types has no conversion.
    Unsupported(LogicalType, LogicalType),
}

/// The canonical text of a time unit.
pub open spec fn unit_text(u: TimeUnit) -> Seq<char> {
    match u {
        TimeUnit::Second => "Second"@,
        TimeUnit::Millisecond => "Millisecond"@,
        TimeUnit::Microsecond => "Microsecond"@,
        TimeUnit::Nanosecond => "Nanosecond"@,
    }
}

/// The canonical text of a logical type, as it appears in error messages.
pub open spec fn type_text(t: LogicalType) -> Seq<char>
    decreases t,
{
    match t {
        LogicalType::Boolean => "Boolean"@,
        LogicalType::Int8 => "Int8"@,
        LogicalType::Int16 => "Int16"@,
        LogicalType::Int32 => "Int32"@,
        LogicalType::Int64 => "Int64"@,
        LogicalType::UInt8 => "UInt8"@,
        LogicalType::UInt16 => "UInt16"@,
        LogicalType::UInt32 => "UInt32"@,
        LogicalType::UInt64 => "UInt64"@,
        LogicalType::Float32 => "Float32"@,
        LogicalType::Float64 => "Float64"@,
        LogicalType::Utf8 => "Utf8"@,
        LogicalType::Timestamp(u) => "Timestamp("@ + unit_text(u) + ")"@,
        LogicalType::List(inner) => "List("@ + type_text(*inner) + ")"@,
        LogicalType::Struct => "Struct"@,
    }
}

/// The message text of each failure, verbatim.
pub open spec fn message_text(e: CastError) -> Seq<char> {
    match e {
        CastError::StructSource => "Cannot cast from struct to other types"@,
        CastError::StructTarget => "Cannot cast to struct from other types"@,
        CastError::ListToNonList => "Cannot cast list to non-list data types"@,
        CastError::SlicedPromotion => "Cast kernel does not yet support sliced (non-zero offset) arrays"@,
        CastError::Unsupported(f, t) => "Casting from "@ + type_text(f) + " to "@ + type_text(t)
            + " not supported"@,
    }
}

/// The canonical name of a time unit.
pub fn unit_name(u: &TimeUnit) -> (r: &'static str)
    ensures
        r@ == unit_text(*u),
{
    match u {
        TimeUnit::Second => "Second",
        TimeUnit::Millisecond => "Millisecond",
        TimeUnit::Microsecond => "Microsecond",
        TimeUnit::Nanosecond => "Nanosecond",
    }
}

/// The canonical name of a logical type, as used in error messages.
pub fn type_label(t: &LogicalType) -> (r: String)
    ensures
        r@ == type_text(*t),
    decreases *t,
{
    match t {
        LogicalType::Boolean => String::from_str("Boolean"),
        LogicalType::Int8 => String::from_str("Int8"),
        LogicalType::Int16 => String::from_str("Int16"),
        LogicalType::Int32 => String::from_str("Int32"),
        LogicalType::Int64 => String::from_str("Int64"),
        LogicalType::UInt8 => String::from_str("UInt8"),
        LogicalType::UInt16 => String::from_str("UInt16"),
        LogicalType::UInt32 => String::from_str("UInt32"),
        LogicalType::UInt64 => String::from_str("UInt64"),
        LogicalType::Float32 => String::from_str("Float32"),
        LogicalType::Float64 => String::from_str("Float64"),
        LogicalType::Utf8 => String::from_str("Utf8"),
        LogicalType::Timestamp(u) => {
            let r = String::from_str("Timestamp(").concat(unit_name(u)).concat(")");
            proof {
                assert(r@ =~= type_text(*t));
            }
            r
        },
        LogicalType::List(inner) => {
            let name = type_label(inner);
            let r = String::from_str("List(").concat(name.as_str()).concat(")");
            proof {
                assert(r@ =~= type_text(*t));
            }
            r
        },
        LogicalType::Struct => String::from_str("Struct"),
    }
}

impl CastError {
    /// The human-readable description of the failure. It names the source
    /// and target types verbatim where the pair itself is the problem.
    pub fn message(&self) -> (r: String)
        ensures
            r@ == message_text(*self),
    {
        match self {
            CastError::StructSource => String::from_str("Cannot cast from struct to other types"),
            CastError::StructTarget => String::from_str("Cannot cast to struct from other types"),
            CastError::ListToNonList => String::from_str("Cannot cast list to non-list data types"),
            CastError::SlicedPromotion => String::from_str(
                "Cast kernel does not yet support sliced (non-zero offset) arrays",
            ),
            CastError::Unsupported(f, t) => {
                let fname = type_label(f);
                let tname = type_label(t);
                let r = String::from_str("Casting from ").concat(fname.as_str()).concat(
                    " to ",
                ).concat(tname.as_str()).concat(" not supported");
                proof {
                    assert(r@ =~= message_text(*self));
                }
                r
            },
        }
    }
}

} // verus!
