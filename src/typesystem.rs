//! Data types, their natures, and the predicates the validation rules ask of them.
use vstd::prelude::*;
use crate::text::same_text;

verus! {

/// The width in bits a plain integer needs to hold a pointer.
pub const POINTER_SIZE: u64 = 64;

/// The category a generic parameter constrains its argument to.
#[derive(Clone, Copy, Debug, PartialEq, Eq, Structural)]
pub enum TypeNature {
    Any,
    Derived,
    Elementary,
    Magnitude,
    Num,
    Real,
    Int,
    Signed,
    Unsigned,
    Bit,
    String,
    Char,
}

impl TypeNature {
    /// Whether every type of nature `self` also has nature `other`.
    pub open spec fn spec_derives(&self, other: TypeNature) -> bool {
        *self == other || match other {
            TypeNature::Any => true,
            TypeNature::Elementary => !matches!(*self, TypeNature::Any | TypeNature::Derived),
            TypeNature::Magnitude => matches!(*self, TypeNature::Num | TypeNature::Real
                | TypeNature::Int | TypeNature::Signed | TypeNature::Unsigned),
            TypeNature::Num => matches!(*self, TypeNature::Real | TypeNature::Int
                | TypeNature::Signed | TypeNature::Unsigned),
            TypeNature::Int => matches!(*self, TypeNature::Signed | TypeNature::Unsigned),
            _ => false,
        }
    }

    #[verifier::when_used_as_spec(spec_derives)]
    pub fn derives(&self, other: TypeNature) -> (r: bool)
        ensures
            r == self.spec_derives(other),
    {
        if *self == other {
            return true;
        }
        match other {
            TypeNature::Any => true,
            TypeNature::Elementary => !matches!(*self, TypeNature::Any | TypeNature::Derived),
            TypeNature::Magnitude => matches!(*self, TypeNature::Num | TypeNature::Real
                | TypeNature::Int | TypeNature::Signed | TypeNature::Unsigned),
            TypeNature::Num => matches!(*self, TypeNature::Real | TypeNature::Int
                | TypeNature::Signed | TypeNature::Unsigned),
            TypeNature::Int => matches!(*self, TypeNature::Signed | TypeNature::Unsigned),
            _ => false,
        }
    }

    /// Whether a value whose type has nature `other` may be assigned to a target of nature
    /// `self` before the finer assignment rules are applied: integers and bit strings mix,
    /// a real target takes any number, characters and strings mix, derived types take
    /// derived types, and a target of a general nature takes what derives from it.
    pub open spec fn spec_accepts(&self, other: TypeNature) -> bool {
        let l = *self;
        ||| l == TypeNature::Any
        ||| other == TypeNature::Any
        ||| (l == TypeNature::Real && other.spec_derives(TypeNature::Num))
        ||| ((l.spec_derives(TypeNature::Int) || l == TypeNature::Bit)
            && (other.spec_derives(TypeNature::Int) || other == TypeNature::Bit))
        ||| ((l == TypeNature::String || l == TypeNature::Char)
            && (other == TypeNature::String || other == TypeNature::Char))
        ||| (l == TypeNature::Derived && other == TypeNature::Derived)
        ||| (matches!(l, TypeNature::Num | TypeNature::Magnitude | TypeNature::Elementary)
            && other.spec_derives(l))
    }

    #[verifier::when_used_as_spec(spec_accepts)]
    pub fn accepts(&self, other: TypeNature) -> (r: bool)
        ensures
            r == self.spec_accepts(other),
    {
        let l = *self;
        if l == TypeNature::Any || other == TypeNature::Any {
            return true;
        }
        if l == TypeNature::Real && other.derives(TypeNature::Num) {
            return true;
        }
        if (l.derives(TypeNature::Int) || l == TypeNature::Bit)
            && (other.derives(TypeNature::Int) || other == TypeNature::Bit) {
            return true;
        }
        if (l == TypeNature::String || l == TypeNature::Char)
            && (other == TypeNature::String || other == TypeNature::Char) {
            return true;
        }
        if l == TypeNature::Derived && other == TypeNature::Derived {
            return true;
        }
        matches!(l, TypeNature::Num | TypeNature::Magnitude | TypeNature::Elementary)
            && other.derives(l)
    }
}

/// The encoding of characters and strings.
#[derive(Clone, Copy, Debug, PartialEq, Eq, Structural)]
pub enum StringEncoding {
    Utf8,
    Utf16,
}

impl StringEncoding {
    pub open spec fn spec_char_width(&self) -> u64 {
        match *self {
            StringEncoding::Utf8 => 8,
            StringEncoding::Utf16 => 16,
        }
    }

    #[verifier::when_used_as_spec(spec_char_width)]
    pub fn char_width(&self) -> (r: u64)
        ensures
            r == self.spec_char_width(),
    {
        match *self {
            StringEncoding::Utf8 => 8,
            StringEncoding::Utf16 => 16,
        }
    }
}

/// One dimension of an array; a bound is `None` while it is not yet resolved.
#[derive(Clone, Copy, Debug, PartialEq, Eq, Structural)]
pub struct Dimension {
    pub start: Option<i64>,
    pub end: Option<i64>,
}

impl Dimension {
    pub open spec fn spec_get_range(&self) -> Option<(i64, i64)> {
        match (self.start, self.end) {
            (Some(s), Some(e)) => Some((s, e)),
            _ => None,
        }
    }

    /// The inclusive bounds of the dimension, when both are known.
    #[verifier::when_used_as_spec(spec_get_range)]
    pub fn get_range(&self) -> (r: Option<(i64, i64)>)
        ensures
            r == self.spec_get_range(),
    {
        match (self.start, self.end) {
            (Some(s), Some(e)) => Some((s, e)),
            _ => None,
        }
    }
}

/// The representation of a data type. Names in it refer to other types of the index.
/// The sizes of arrays and structs are in bits, as laid out by the index.
#[derive(Debug, PartialEq)]
pub enum DataTypeInformation {
    Integer { signed: bool, size: u32, semantic_size: Option<u32> },
    Float { size: u32 },
    String { size: u32, encoding: StringEncoding },
    Char { encoding: StringEncoding },
    Pointer { inner_type_name: String, auto_deref: bool },
    Array { inner_type_name: String, dimensions: Vec<Dimension>, size: u64 },
    Struct { member_names: Vec<String>, size: u64 },
    Enum { referenced_type: String, elements: Vec<String> },
    SubRange { referenced_type: String, min: i128, max: i128 },
    Alias { referenced_type: String },
    Generic { generic_symbol: String, nature: TypeNature },
    Void,
}

impl DataTypeInformation {
    pub open spec fn spec_is_int(&self) -> bool {
        matches!(*self, DataTypeInformation::Integer { .. } | DataTypeInformation::Enum { .. })
    }

    /// Integers; an enum is represented as an integer.
    #[verifier::when_used_as_spec(spec_is_int)]
    pub fn is_int(&self) -> (r: bool)
        ensures
            r == self.spec_is_int(),
    {
        matches!(*self, DataTypeInformation::Integer { .. } | DataTypeInformation::Enum { .. })
    }

    pub open spec fn spec_is_unsigned_int(&self) -> bool {
        matches!(*self, DataTypeInformation::Integer { signed: false, .. })
    }

    #[verifier::when_used_as_spec(spec_is_unsigned_int)]
    pub fn is_unsigned_int(&self) -> (r: bool)
        ensures
            r == self.spec_is_unsigned_int(),
    {
        matches!(*self, DataTypeInformation::Integer { signed: false, .. })
    }

    pub open spec fn spec_is_float(&self) -> bool {
        *self is Float
    }

    #[verifier::when_used_as_spec(spec_is_float)]
    pub fn is_float(&self) -> (r: bool)
        ensures
            r == self.spec_is_float(),
    {
        matches!(*self, DataTypeInformation::Float { .. })
    }

    pub open spec fn spec_is_numerical(&self) -> bool {
        matches!(*self, DataTypeInformation::Integer { .. } | DataTypeInformation::Float { .. }
            | DataTypeInformation::Enum { .. })
    }

    #[verifier::when_used_as_spec(spec_is_numerical)]
    pub fn is_numerical(&self) -> (r: bool)
        ensures
            r == self.spec_is_numerical(),
    {
        matches!(*self, DataTypeInformation::Integer { .. } | DataTypeInformation::Float { .. }
            | DataTypeInformation::Enum { .. })
    }

    pub open spec fn spec_is_pointer(&self) -> bool {
        *self is Pointer
    }

    #[verifier::when_used_as_spec(spec_is_pointer)]
    pub fn is_pointer(&self) -> (r: bool)
        ensures
            r == self.spec_is_pointer(),
    {
        matches!(*self, DataTypeInformation::Pointer { .. })
    }

    pub open spec fn spec_is_character(&self) -> bool {
        *self is Char
    }

    #[verifier::when_used_as_spec(spec_is_character)]
    pub fn is_character(&self) -> (r: bool)
        ensures
            r == self.spec_is_character(),
    {
        matches!(*self, DataTypeInformation::Char { .. })
    }

    pub open spec fn spec_is_string(&self) -> bool {
        *self is String
    }

    #[verifier::when_used_as_spec(spec_is_string)]
    pub fn is_string(&self) -> (r: bool)
        ensures
            r == self.spec_is_string(),
    {
        matches!(*self, DataTypeInformation::String { .. })
    }

    pub open spec fn spec_is_aggregate(&self) -> bool {
        matches!(*self, DataTypeInformation::Array { .. } | DataTypeInformation::Struct { .. }
            | DataTypeInformation::String { .. })
    }

    /// Arrays, structs and strings.
    #[verifier::when_used_as_spec(spec_is_aggregate)]
    pub fn is_aggregate(&self) -> (r: bool)
        ensures
            r == self.spec_is_aggregate(),
    {
        matches!(*self, DataTypeInformation::Array { .. } | DataTypeInformation::Struct { .. }
            | DataTypeInformation::String { .. })
    }

    pub open spec fn spec_is_compatible_char_and_string(&self, other: &DataTypeInformation) -> bool {
        match (*self, *other) {
            (DataTypeInformation::Char { encoding: a }, DataTypeInformation::String { encoding: b, .. }) => a == b,
            _ => false,
        }
    }

    /// A character target and a string value of the same encoding.
    #[verifier::when_used_as_spec(spec_is_compatible_char_and_string)]
    pub fn is_compatible_char_and_string(&self, other: &DataTypeInformation) -> (r: bool)
        ensures
            r == self.spec_is_compatible_char_and_string(other),
    {
        match (self, other) {
            (DataTypeInformation::Char { encoding: a }, DataTypeInformation::String { encoding: b, .. }) => *a == *b,
            _ => false,
        }
    }

    /// The variant of the representation, without its fields.
    pub open spec fn spec_variant(&self) -> u8 {
        match *self {
            DataTypeInformation::Integer { .. } => 0,
            DataTypeInformation::Float { .. } => 1,
            DataTypeInformation::String { .. } => 2,
            DataTypeInformation::Char { .. } => 3,
            DataTypeInformation::Pointer { .. } => 4,
            DataTypeInformation::Array { .. } => 5,
            DataTypeInformation::Struct { .. } => 6,
            DataTypeInformation::Enum { .. } => 7,
            DataTypeInformation::SubRange { .. } => 8,
            DataTypeInformation::Alias { .. } => 9,
            DataTypeInformation::Generic { .. } => 10,
            DataTypeInformation::Void => 11,
        }
    }

    #[verifier::when_used_as_spec(spec_variant)]
    pub fn variant(&self) -> (r: u8)
        ensures
            r == self.spec_variant(),
    {
        match self {
            DataTypeInformation::Integer { .. } => 0,
            DataTypeInformation::Float { .. } => 1,
            DataTypeInformation::String { .. } => 2,
            DataTypeInformation::Char { .. } => 3,
            DataTypeInformation::Pointer { .. } => 4,
            DataTypeInformation::Array { .. } => 5,
            DataTypeInformation::Struct { .. } => 6,
            DataTypeInformation::Enum { .. } => 7,
            DataTypeInformation::SubRange { .. } => 8,
            DataTypeInformation::Alias { .. } => 9,
            DataTypeInformation::Generic { .. } => 10,
            DataTypeInformation::Void => 11,
        }
    }
}

/// A named data type with its representation and nature.
#[derive(Debug, PartialEq)]
pub struct DataType {
    pub name: String,
    pub information: DataTypeInformation,
    pub nature: TypeNature,
}

/// The names of the date and time types.
pub open spec fn is_date_or_time_name(n: Seq<char>) -> bool {
    ||| n == "DATE"@
    ||| n == "DATE_AND_TIME"@
    ||| n == "TIME_OF_DAY"@
    ||| n == "TIME"@
    ||| n == "LDATE"@
    ||| n == "LDATE_AND_TIME"@
    ||| n == "LTIME_OF_DAY"@
    ||| n == "LTIME"@
}

impl DataType {
    pub open spec fn spec_is_date_or_time_type(&self) -> bool {
        is_date_or_time_name(self.name@)
    }

    #[verifier::when_used_as_spec(spec_is_date_or_time_type)]
    pub fn is_date_or_time_type(&self) -> (r: bool)
        ensures
            r == self.spec_is_date_or_time_type(),
    {
        let n = self.name.as_str();
        same_text(n, "DATE") || same_text(n, "DATE_AND_TIME") || same_text(n, "TIME_OF_DAY")
            || same_text(n, "TIME") || same_text(n, "LDATE") || same_text(n, "LDATE_AND_TIME")
            || same_text(n, "LTIME_OF_DAY") || same_text(n, "LTIME")
    }

    pub open spec fn spec_is_compatible_with_type(&self, other: &DataType) -> bool {
        self.nature.spec_accepts(other.nature)
    }

    /// Whether a value of type `other` may be assigned to a target of this type before the
    /// finer rules on pointers, characters and aggregates are applied.
    #[verifier::when_used_as_spec(spec_is_compatible_with_type)]
    pub fn is_compatible_with_type(&self, other: &DataType) -> (r: bool)
        ensures
            r == self.spec_is_compatible_with_type(other),
    {
        self.nature.accepts(other.nature)
    }
}

} // verus!
