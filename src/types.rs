use vstd::prelude::*;

verus! {

/// Byte order of every multi-byte number in a file, fixed by its header.
#[derive(Debug, PartialEq, Eq, Clone, Copy, Structural)]
pub enum Endianness {
    Little,
    Big,
}

/// The twelve primitive field types of TIFF 6.0.
#[derive(Debug, PartialEq, Eq, Clone, Copy, Structural)]
pub enum FieldType {
    Byte,
    Ascii,
    Short,
    Long,
    Rational,
    SByte,
    Undefined,
    SShort,
    SLong,
    SRational,
    Float,
    Double,
}

/// The field type that a directory entry's type code names, if any.
pub open spec fn field_type_of_code(code: u16) -> Option<FieldType> {
    if code == 1 {
        Some(FieldType::Byte)
    } else if code == 2 {
        Some(FieldType::Ascii)
    } else if code == 3 {
        Some(FieldType::Short)
    } else if code == 4 {
        Some(FieldType::Long)
    } else if code == 5 {
        Some(FieldType::Rational)
    } else if code == 6 {
        Some(FieldType::SByte)
    } else if code == 7 {
        Some(FieldType::Undefined)
    } else if code == 8 {
        Some(FieldType::SShort)
    } else if code == 9 {
        Some(FieldType::SLong)
    } else if code == 10 {
        Some(FieldType::SRational)
    } else if code == 11 {
        Some(FieldType::Float)
    } else if code == 12 {
        Some(FieldType::Double)
    } else {
        None
    }
}

/// Number of bytes that `count` elements of type `t` occupy, when that
/// number fits in a `usize`.
pub open spec fn buffer_size_of(t: FieldType, count: u32) -> Option<usize> {
    let n = t.spec_size() * count;
    if n <= usize::MAX {
        Some(n as usize)
    } else {
        None
    }
}

impl FieldType {
    /// Width in bytes of one element of this type.
    pub open spec fn spec_size(self) -> nat {
        match self {
            FieldType::Byte | FieldType::Ascii | FieldType::SByte | FieldType::Undefined => 1,
            FieldType::Short | FieldType::SShort => 2,
            FieldType::Long | FieldType::SLong | FieldType::Float => 4,
            FieldType::Rational | FieldType::SRational | FieldType::Double => 8,
        }
    }

    /// Resolves a type code; codes outside 1..=12 give `None`.
    pub fn from_u16(field_type_raw: u16) -> (r: Option<FieldType>)
        ensures
            r == field_type_of_code(field_type_raw),
    {
        match field_type_raw {
            1 => Some(FieldType::Byte),
            2 => Some(FieldType::Ascii),
            3 => Some(FieldType::Short),
            4 => Some(FieldType::Long),
            5 => Some(FieldType::Rational),
            6 => Some(FieldType::SByte),
            7 => Some(FieldType::Undefined),
            8 => Some(FieldType::SShort),
            9 => Some(FieldType::SLong),
            10 => Some(FieldType::SRational),
            11 => Some(FieldType::Float),
            12 => Some(FieldType::Double),
            _ => None,
        }
    }

    /// Width in bytes of one element of this type.
    pub fn size_of(&self) -> (r: usize)
        ensures
            r == self.spec_size(),
    {
        match self {
            FieldType::Byte => 1,
            FieldType::Ascii => 1,
            FieldType::Short => 2,
            FieldType::Long => 4,
            FieldType::Rational => 8,
            FieldType::SByte => 1,
            FieldType::Undefined => 1,
            FieldType::SShort => 2,
            FieldType::SLong => 4,
            FieldType::SRational => 8,
            FieldType::Float => 4,
            FieldType::Double => 8,
        }
    }

    /// The upper-case name that TIFF 6.0 gives this type.
    pub open spec fn spec_name(self) -> Seq<char> {
        match self {
            FieldType::Byte => "BYTE"@,
            FieldType::Ascii => "ASCII"@,
            FieldType::Short => "SHORT"@,
            FieldType::Long => "LONG"@,
            FieldType::Rational => "RATIONAL"@,
            FieldType::SByte => "SBYTE"@,
            FieldType::Undefined => "UNDEFINED"@,
            FieldType::SShort => "SSHORT"@,
            FieldType::SLong => "SLONG"@,
            FieldType::SRational => "SRATIONAL"@,
            FieldType::Float => "FLOAT"@,
            FieldType::Double => "DOUBLE"@,
        }
    }

    /// The upper-case name that TIFF 6.0 gives this type.
    pub fn name(&self) -> (r: &'static str)
        ensures
            r@ == self.spec_name(),
    {
        let r = match self {
            FieldType::Byte => "BYTE",
            FieldType::Ascii => "ASCII",
            FieldType::Short => "SHORT",
            FieldType::Long => "LONG",
            FieldType::Rational => "RATIONAL",
            FieldType::SByte => "SBYTE",
            FieldType::Undefined => "UNDEFINED",
            FieldType::SShort => "SSHORT",
            FieldType::SLong => "SLONG",
            FieldType::SRational => "SRATIONAL",
            FieldType::Float => "FLOAT",
            FieldType::Double => "DOUBLE",
        };
        r
    }
}

/// Size in bytes of `count` elements of `field_type`, or `None` when that
/// size is not representable as a `usize`.
pub fn compute_value_buffer_size(field_type: FieldType, count: u32) -> (r: Option<usize>)
    ensures
        r == buffer_size_of(field_type, count),
{
    let element_size = field_type.size_of() as u64;
    let total: u64 = element_size * (count as u64);
    if total <= usize::MAX as u64 {
        Some(total as usize)
    } else {
        None
    }
}

/// The buffer size is `None`, not a wrapped number, whenever the byte count
/// exceeds the largest `usize`.
pub proof fn lemma_buffer_size_overflow(t: FieldType, count: u32)
    requires
        t.spec_size() * count > usize::MAX,
    ensures
        buffer_size_of(t, count) is None,
{
}

} // verus!
