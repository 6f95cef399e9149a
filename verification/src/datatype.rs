//! The closed set of coarse column types.

use vstd::prelude::*;
use crate::text::str_eq;

verus! {

/// A coarse category of a column's values. `Unknown` is the default and the
/// value of a column whose type could not be determined.
#[derive(Clone, Copy, Debug, PartialEq, Eq, Structural)]
pub enum DataType {
    String,
    DateTime,
    Object,
    Array,
    Unknown,
}

impl Default for DataType {
    fn default() -> (r: DataType)
        ensures
            r == DataType::Unknown,
    {
        DataType::Unknown
    }
}

/// The type that a catalog document's type word declares, if the word is one
/// of the four recognised ones.
pub open spec fn data_type_of_word(s: Seq<char>) -> Option<DataType> {
    if s == "string"@ {
        Some(DataType::String)
    } else if s == "datetime"@ {
        Some(DataType::DateTime)
    } else if s == "object"@ {
        Some(DataType::Object)
    } else if s == "array"@ {
        Some(DataType::Array)
    } else {
        None
    }
}

/// The text that stands for a type on an edge label.
pub open spec fn data_type_text(t: DataType) -> Seq<char> {
    match t {
        DataType::String => "String"@,
        DataType::DateTime => "DateTime"@,
        DataType::Object => "Object"@,
        DataType::Array => "Array"@,
        DataType::Unknown => "Unknown"@,
    }
}

impl DataType {
    /// Reads the type word of a catalog document. Any word but `string`,
    /// `datetime`, `object` and `array` is rejected.
    pub fn from_str(s: &str) -> (r: Option<DataType>)
        ensures
            r == data_type_of_word(s@),
    {
        if str_eq(s, "string") {
            Some(DataType::String)
        } else if str_eq(s, "datetime") {
            Some(DataType::DateTime)
        } else if str_eq(s, "object") {
            Some(DataType::Object)
        } else if str_eq(s, "array") {
            Some(DataType::Array)
        } else {
            None
        }
    }

    /// The name of the type as it is printed on an edge label.
    pub fn label(&self) -> (r: &'static str)
        ensures
            r@ == data_type_text(*self),
    {
        match self {
            DataType::String => "String",
            DataType::DateTime => "DateTime",
            DataType::Object => "Object",
            DataType::Array => "Array",
            DataType::Unknown => "Unknown",
        }
    }
}

} // verus!
