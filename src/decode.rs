use vstd::prelude::*;

use crate::error::TiffReadError;
use crate::types::{buffer_size_of, compute_value_buffer_size, Endianness, FieldType};

verus! {

/// An unsigned rational: numerator then denominator, unreduced.
#[derive(Debug, PartialEq, Eq, Clone, Copy, Structural)]
pub struct Rational {
    pub numerator: u32,
    pub denominator: u32,
}

/// A signed rational: numerator then denominator, unreduced.
#[derive(Debug, PartialEq, Eq, Clone, Copy, Structural)]
pub struct SRational {
    pub numerator: i32,
    pub denominator: i32,
}

/// A decoded field value: one sequence per field type. `Float` and `Double`
/// hold the IEEE 754 bit patterns of their elements.
#[derive(Debug, PartialEq, Clone)]
pub enum FieldValue {
    Byte(Vec<u8>),
    Ascii(Vec<u8>),
    Short(Vec<u16>),
    Long(Vec<u32>),
    Rational(Vec<Rational>),
    SByte(Vec<i8>),
    Undefined(Vec<u8>),
    SShort(Vec<i16>),
    SLong(Vec<i32>),
    SRational(Vec<SRational>),
    Float(Vec<u32>),
    Double(Vec<u64>),
}

/// Mathematical model of a `FieldValue`.
pub enum FieldValueView {
    Byte(Seq<u8>),
    Ascii(Seq<u8>),
    Short(Seq<u16>),
    Long(Seq<u32>),
    Rational(Seq<Rational>),
    SByte(Seq<i8>),
    Undefined(Seq<u8>),
    SShort(Seq<i16>),
    SLong(Seq<i32>),
    SRational(Seq<SRational>),
    Float(Seq<u32>),
    Double(Seq<u64>),
}

impl FieldValueView {
    pub open spec fn field_type(self) -> FieldType {
        match self {
            FieldValueView::Byte(_) => FieldType::Byte,
            FieldValueView::Ascii(_) => FieldType::Ascii,
            FieldValueView::Short(_) => FieldType::Short,
            FieldValueView::Long(_) => FieldType::Long,
            FieldValueView::Rational(_) => FieldType::Rational,
            FieldValueView::SByte(_) => FieldType::SByte,
            FieldValueView::Undefined(_) => FieldType::Undefined,
            FieldValueView::SShort(_) => FieldType::SShort,
            FieldValueView::SLong(_) => FieldType::SLong,
            FieldValueView::SRational(_) => FieldType::SRational,
            FieldValueView::Float(_) => FieldType::Float,
            FieldValueView::Double(_) => FieldType::Double,
        }
    }

    pub open spec fn count(self) -> nat {
        match self {
            FieldValueView::Byte(v) => v.len(),
            FieldValueView::Ascii(v) => v.len(),
            FieldValueView::Short(v) => v.len(),
            FieldValueView::Long(v) => v.len(),
            FieldValueView::Rational(v) => v.len(),
            FieldValueView::SByte(v) => v.len(),
            FieldValueView::Undefined(v) => v.len(),
            FieldValueView::SShort(v) => v.len(),
            FieldValueView::SLong(v) => v.len(),
            FieldValueView::SRational(v) => v.len(),
            FieldValueView::Float(v) => v.len(),
            FieldValueView::Double(v) => v.len(),
        }
    }
}

impl View for FieldValue {
    type V = FieldValueView;

    open spec fn view(&self) -> FieldValueView {
        match self {
            FieldValue::Byte(v) => FieldValueView::Byte(v@),
            FieldValue::Ascii(v) => FieldValueView::Ascii(v@),
            FieldValue::Short(v) => FieldValueView::Short(v@),
            FieldValue::Long(v) => FieldValueView::Long(v@),
            FieldValue::Rational(v) => FieldValueView::Rational(v@),
            FieldValue::SByte(v) => FieldValueView::SByte(v@),
            FieldValue::Undefined(v) => FieldValueView::Undefined(v@),
            FieldValue::SShort(v) => FieldValueView::SShort(v@),
            FieldValue::SLong(v) => FieldValueView::SLong(v@),
            FieldValue::SRational(v) => FieldValueView::SRational(v@),
            FieldValue::Float(v) => FieldValueView::Float(v@),
            FieldValue::Double(v) => FieldValueView::Double(v@),
        }
    }
}

impl FieldValue {
    /// The type whose elements this value holds.
    pub fn field_type(&self) -> (r: FieldType)
        ensures
            r == self@.field_type(),
    {
        match self {
            FieldValue::Byte(_) => FieldType::Byte,
            FieldValue::Ascii(_) => FieldType::Ascii,
            FieldValue::Short(_) => FieldType::Short,
            FieldValue::Long(_) => FieldType::Long,
            FieldValue::Rational(_) => FieldType::Rational,
            FieldValue::SByte(_) => FieldType::SByte,
            FieldValue::Undefined(_) => FieldType::Undefined,
            FieldValue::SShort(_) => FieldType::SShort,
            FieldValue::SLong(_) => FieldType::SLong,
            FieldValue::SRational(_) => FieldType::SRational,
            FieldValue::Float(_) => FieldType::Float,
            FieldValue::Double(_) => FieldType::Double,
        }
    }

    /// The number of elements.
    pub fn count(&self) -> (r: usize)
        ensures
            r == self@.count(),
    {
        match self {
            FieldValue::Byte(v) => v.len(),
            FieldValue::Ascii(v) => v.len(),
            FieldValue::Short(v) => v.len(),
            FieldValue::Long(v) => v.len(),
            FieldValue::Rational(v) => v.len(),
            FieldValue::SByte(v) => v.len(),
            FieldValue::Undefined(v) => v.len(),
            FieldValue::SShort(v) => v.len(),
            FieldValue::SLong(v) => v.len(),
            FieldValue::SRational(v) => v.len(),
            FieldValue::Float(v) => v.len(),
            FieldValue::Double(v) => v.len(),
        }
    }
}

/// The 16-bit unsigned integer that `b[0..2]` encodes in byte order `e`.
pub open spec fn u16_from(b: Seq<u8>, e: Endianness) -> u16 {
    match e {
        Endianness::Little => (b[0] + 0x100 * b[1]) as u16,
        Endianness::Big => (0x100 * b[0] + b[1]) as u16,
    }
}

/// The 32-bit unsigned integer that `b[0..4]` encodes in byte order `e`.
pub open spec fn u32_from(b: Seq<u8>, e: Endianness) -> u32 {
    match e {
        Endianness::Little => (b[0] + 0x100 * b[1] + 0x1_0000 * b[2] + 0x100_0000 * b[3]) as u32,
        Endianness::Big => (0x100_0000 * b[0] + 0x1_0000 * b[1] + 0x100 * b[2] + b[3]) as u32,
    }
}

/// The 64-bit unsigned integer that `b[0..8]` encodes in byte order `e`.
pub open spec fn u64_from(b: Seq<u8>, e: Endianness) -> u64 {
    match e {
        Endianness::Little => (u32_from(b, e) + 0x1_0000_0000 * u32_from(b.subrange(4, 8), e)) as u64,
        Endianness::Big => (0x1_0000_0000 * u32_from(b, e) + u32_from(b.subrange(4, 8), e)) as u64,
    }
}

/// Element `i` of a sequence of `width`-byte chunks.
pub open spec fn chunk(b: Seq<u8>, width: int, i: int) -> Seq<u8> {
    b.subrange(width * i, width * i + width)
}

/// What `count` elements of type `t` stored in `b` with byte order `e`
/// decode to: element `i` comes from the `i`-th chunk of the type's width.
pub open spec fn decoded(t: FieldType, count: nat, b: Seq<u8>, e: Endianness) -> FieldValueView {
    match t {
        FieldType::Byte => FieldValueView::Byte(Seq::new(count, |i: int| b[i])),
        FieldType::Ascii => FieldValueView::Ascii(Seq::new(count, |i: int| b[i])),
        FieldType::Undefined => FieldValueView::Undefined(Seq::new(count, |i: int| b[i])),
        FieldType::SByte => FieldValueView::SByte(Seq::new(count, |i: int| b[i] as i8)),
        FieldType::Short => FieldValueView::Short(
            Seq::new(count, |i: int| u16_from(chunk(b, 2, i), e)),
        ),
        FieldType::SShort => FieldValueView::SShort(
            Seq::new(count, |i: int| u16_from(chunk(b, 2, i), e) as i16),
        ),
        FieldType::Long => FieldValueView::Long(
            Seq::new(count, |i: int| u32_from(chunk(b, 4, i), e)),
        ),
        FieldType::SLong => FieldValueView::SLong(
            Seq::new(count, |i: int| u32_from(chunk(b, 4, i), e) as i32),
        ),
        FieldType::Float => FieldValueView::Float(
            Seq::new(count, |i: int| u32_from(chunk(b, 4, i), e)),
        ),
        FieldType::Rational => FieldValueView::Rational(
            Seq::new(
                count,
                |i: int|
                    Rational {
                        numerator: u32_from(chunk(b, 8, i), e),
                        denominator: u32_from(chunk(b, 8, i).subrange(4, 8), e),
                    },
            ),
        ),
        FieldType::SRational => FieldValueView::SRational(
            Seq::new(
                count,
                |i: int|
                    SRational {
                        numerator: u32_from(chunk(b, 8, i), e) as i32,
                        denominator: u32_from(chunk(b, 8, i).subrange(4, 8), e) as i32,
                    },
            ),
        ),
        FieldType::Double => FieldValueView::Double(
            Seq::new(count, |i: int| u64_from(chunk(b, 8, i), e)),
        ),
    }
}

pub(crate) fn u16_at(b: &[u8], at: usize, e: Endianness) -> (r: u16)
    requires
        at + 2 <= b@.len(),
    ensures
        r == u16_from(b@.subrange(at as int, at + 2), e),
{
    let b0 = b[at] as u16;
    let b1 = b[at + 1] as u16;
    match e {
        Endianness::Little => b0 + 0x100 * b1,
        Endianness::Big => 0x100 * b0 + b1,
    }
}

pub(crate) fn u32_at(b: &[u8], at: usize, e: Endianness) -> (r: u32)
    requires
        at + 4 <= b@.len(),
    ensures
        r == u32_from(b@.subrange(at as int, at + 4), e),
{
    let b0 = b[at] as u32;
    let b1 = b[at + 1] as u32;
    let b2 = b[at + 2] as u32;
    let b3 = b[at + 3] as u32;
    match e {
        Endianness::Little => b0 + 0x100 * b1 + 0x1_0000 * b2 + 0x100_0000 * b3,
        Endianness::Big => 0x100_0000 * b0 + 0x1_0000 * b1 + 0x100 * b2 + b3,
    }
}

fn u64_at(b: &[u8], at: usize, e: Endianness) -> (r: u64)
    requires
        at + 8 <= b@.len(),
    ensures
        r == u64_from(b@.subrange(at as int, at + 8), e),
{
    let lo = u32_at(b, at, e) as u64;
    assert(b@.len() == b.len());
    let hi = u32_at(b, at + 4, e) as u64;
    proof {
        let s = b@.subrange(at as int, at + 8);
        assert(s.subrange(0, 4) =~= b@.subrange(at as int, at + 4));
        assert(s.subrange(4, 8) =~= b@.subrange(at + 4, at + 8));
    }
    match e {
        Endianness::Little => lo + 0x1_0000_0000 * hi,
        Endianness::Big => 0x1_0000_0000 * lo + hi,
    }
}

} // verus!

verus! {

fn copy_bytes(b: &[u8], count: usize) -> (r: Vec<u8>)
    requires
        b@.len() == count,
    ensures
        r@ == Seq::new(count as nat, |i: int| b@[i]),
{
    let mut r: Vec<u8> = Vec::new();
    let mut i: usize = 0;
    while i < count
        invariant
            b@.len() == count,
            i <= count,
            r@ =~= Seq::new(i as nat, |j: int| b@[j]),
        decreases count - i,
    {
        r.push(b[i]);
        i += 1;
    }
    r
}

fn signed_bytes(b: &[u8], count: usize) -> (r: Vec<i8>)
    requires
        b@.len() == count,
    ensures
        r@ == Seq::new(count as nat, |i: int| b@[i] as i8),
{
    let mut r: Vec<i8> = Vec::new();
    let mut i: usize = 0;
    while i < count
        invariant
            b@.len() == count,
            i <= count,
            r@ =~= Seq::new(i as nat, |j: int| b@[j] as i8),
        decreases count - i,
    {
        r.push(b[i] as i8);
        i += 1;
    }
    r
}

fn decode_u16s(b: &[u8], count: usize, e: Endianness) -> (r: Vec<u16>)
    requires
        b@.len() == 2 * count,
    ensures
        r@ == Seq::new(count as nat, |i: int| u16_from(chunk(b@, 2, i), e)),
{
    assert(b@.len() == b.len());
    let mut r: Vec<u16> = Vec::new();
    let mut i: usize = 0;
    while i < count
        invariant
            b@.len() == 2 * count <= usize::MAX,
            i <= count,
            r@ =~= Seq::new(i as nat, |j: int| u16_from(chunk(b@, 2, j), e)),
        decreases count - i,
    {
        r.push(u16_at(b, 2 * i, e));
        i += 1;
    }
    r
}

fn decode_i16s(b: &[u8], count: usize, e: Endianness) -> (r: Vec<i16>)
    requires
        b@.len() == 2 * count,
    ensures
        r@ == Seq::new(count as nat, |i: int| u16_from(chunk(b@, 2, i), e) as i16),
{
    assert(b@.len() == b.len());
    let mut r: Vec<i16> = Vec::new();
    let mut i: usize = 0;
    while i < count
        invariant
            b@.len() == 2 * count <= usize::MAX,
            i <= count,
            r@ =~= Seq::new(i as nat, |j: int| u16_from(chunk(b@, 2, j), e) as i16),
        decreases count - i,
    {
        r.push(u16_at(b, 2 * i, e) as i16);
        i += 1;
    }
    r
}

fn decode_u32s(b: &[u8], count: usize, e: Endianness) -> (r: Vec<u32>)
    requires
        b@.len() == 4 * count,
    ensures
        r@ == Seq::new(count as nat, |i: int| u32_from(chunk(b@, 4, i), e)),
{
    assert(b@.len() == b.len());
    let mut r: Vec<u32> = Vec::new();
    let mut i: usize = 0;
    while i < count
        invariant
            b@.len() == 4 * count <= usize::MAX,
            i <= count,
            r@ =~= Seq::new(i as nat, |j: int| u32_from(chunk(b@, 4, j), e)),
        decreases count - i,
    {
        r.push(u32_at(b, 4 * i, e));
        i += 1;
    }
    r
}

fn decode_i32s(b: &[u8], count: usize, e: Endianness) -> (r: Vec<i32>)
    requires
        b@.len() == 4 * count,
    ensures
        r@ == Seq::new(count as nat, |i: int| u32_from(chunk(b@, 4, i), e) as i32),
{
    assert(b@.len() == b.len());
    let mut r: Vec<i32> = Vec::new();
    let mut i: usize = 0;
    while i < count
        invariant
            b@.len() == 4 * count <= usize::MAX,
            i <= count,
            r@ =~= Seq::new(i as nat, |j: int| u32_from(chunk(b@, 4, j), e) as i32),
        decreases count - i,
    {
        r.push(u32_at(b, 4 * i, e) as i32);
        i += 1;
    }
    r
}

fn decode_u64s(b: &[u8], count: usize, e: Endianness) -> (r: Vec<u64>)
    requires
        b@.len() == 8 * count,
    ensures
        r@ == Seq::new(count as nat, |i: int| u64_from(chunk(b@, 8, i), e)),
{
    assert(b@.len() == b.len());
    let mut r: Vec<u64> = Vec::new();
    let mut i: usize = 0;
    while i < count
        invariant
            b@.len() == 8 * count <= usize::MAX,
            i <= count,
            r@ =~= Seq::new(i as nat, |j: int| u64_from(chunk(b@, 8, j), e)),
        decreases count - i,
    {
        r.push(u64_at(b, 8 * i, e));
        i += 1;
    }
    r
}

fn decode_rationals(b: &[u8], count: usize, e: Endianness) -> (r: Vec<Rational>)
    requires
        b@.len() == 8 * count,
    ensures
        r@ == Seq::new(
            count as nat,
            |i: int|
                Rational {
                    numerator: u32_from(chunk(b@, 8, i), e),
                    denominator: u32_from(chunk(b@, 8, i).subrange(4, 8), e),
                },
        ),
{
    assert(b@.len() == b.len());
    let mut r: Vec<Rational> = Vec::new();
    let mut i: usize = 0;
    while i < count
        invariant
            b@.len() == 8 * count <= usize::MAX,
            i <= count,
            r@ =~= Seq::new(
                i as nat,
                |j: int|
                    Rational {
                        numerator: u32_from(chunk(b@, 8, j), e),
                        denominator: u32_from(chunk(b@, 8, j).subrange(4, 8), e),
                    },
            ),
        decreases count - i,
    {
        let numerator = u32_at(b, 8 * i, e);
        let denominator = u32_at(b, 8 * i + 4, e);
        assert(chunk(b@, 8, i as int).subrange(4, 8) =~= b@.subrange(8 * i + 4, 8 * i + 8));
        r.push(Rational { numerator, denominator });
        i += 1;
    }
    r
}

fn decode_srationals(b: &[u8], count: usize, e: Endianness) -> (r: Vec<SRational>)
    requires
        b@.len() == 8 * count,
    ensures
        r@ == Seq::new(
            count as nat,
            |i: int|
                SRational {
                    numerator: u32_from(chunk(b@, 8, i), e) as i32,
                    denominator: u32_from(chunk(b@, 8, i).subrange(4, 8), e) as i32,
                },
        ),
{
    assert(b@.len() == b.len());
    let mut r: Vec<SRational> = Vec::new();
    let mut i: usize = 0;
    while i < count
        invariant
            b@.len() == 8 * count <= usize::MAX,
            i <= count,
            r@ =~= Seq::new(
                i as nat,
                |j: int|
                    SRational {
                        numerator: u32_from(chunk(b@, 8, j), e) as i32,
                        denominator: u32_from(chunk(b@, 8, j).subrange(4, 8), e) as i32,
                    },
            ),
        decreases count - i,
    {
        let numerator = u32_at(b, 8 * i, e) as i32;
        let denominator = u32_at(b, 8 * i + 4, e) as i32;
        assert(chunk(b@, 8, i as int).subrange(4, 8) =~= b@.subrange(8 * i + 4, 8 * i + 8));
        r.push(SRational { numerator, denominator });
        i += 1;
    }
    r
}

/// Decodes `count` elements of `field_type` from `buffer` in byte order
/// `endianness`. The buffer must hold exactly the bytes that the type and
/// count occupy; element `i` comes from the `i`-th chunk, and rationals are
/// kept as read, zero denominators included.
pub fn value_from_buffer(
    field_type: FieldType,
    count: u32,
    buffer: &[u8],
    endianness: Endianness,
) -> (r: Result<FieldValue, TiffReadError>)
    ensures
        match buffer_size_of(field_type, count) {
            None => r == Err::<FieldValue, TiffReadError>(TiffReadError::BufferSizeOverflow),
            Some(n) => if buffer@.len() != n {
                r == Err::<FieldValue, TiffReadError>(TiffReadError::BufferSizeMismatch)
            } else {
                r is Ok && r->Ok_0@ == decoded(field_type, count as nat, buffer@, endianness)
            },
        },
{
    let size = match compute_value_buffer_size(field_type, count) {
        Some(size) => size,
        None => return Err(TiffReadError::BufferSizeOverflow),
    };
    if buffer.len() != size {
        return Err(TiffReadError::BufferSizeMismatch);
    }
    let n = count as usize;
    let value = match field_type {
        FieldType::Byte => FieldValue::Byte(copy_bytes(buffer, n)),
        FieldType::Ascii => FieldValue::Ascii(copy_bytes(buffer, n)),
        FieldType::Short => FieldValue::Short(decode_u16s(buffer, n, endianness)),
        FieldType::Long => FieldValue::Long(decode_u32s(buffer, n, endianness)),
        FieldType::Rational => FieldValue::Rational(decode_rationals(buffer, n, endianness)),
        FieldType::SByte => FieldValue::SByte(signed_bytes(buffer, n)),
        FieldType::Undefined => FieldValue::Undefined(copy_bytes(buffer, n)),
        FieldType::SShort => FieldValue::SShort(decode_i16s(buffer, n, endianness)),
        FieldType::SLong => FieldValue::SLong(decode_i32s(buffer, n, endianness)),
        FieldType::SRational => FieldValue::SRational(decode_srationals(buffer, n, endianness)),
        FieldType::Float => FieldValue::Float(decode_u32s(buffer, n, endianness)),
        FieldType::Double => FieldValue::Double(decode_u64s(buffer, n, endianness)),
    };
    Ok(value)
}

} // verus!
