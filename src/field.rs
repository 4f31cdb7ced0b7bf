use vstd::prelude::*;

use crate::decode::{decoded, u32_from, u32_at, value_from_buffer, FieldValue, FieldValueView};
use crate::error::TiffReadError;
use crate::types::{buffer_size_of, compute_value_buffer_size, field_type_of_code, Endianness, FieldType};

verus! {

/// Where one tag's value stands.
#[derive(Debug, PartialEq, Clone)]
pub enum FieldState {
    /// Decoded from the four inline bytes of the directory entry.
    Local(FieldValue),
    /// Stored elsewhere in the file, at `offset`, and not read yet.
    NotLoaded { field_type: FieldType, count: u32, offset: u32 },
    /// Read from `offset` and decoded; can be dropped and read again.
    Loaded { value: FieldValue, offset: u32 },
    /// A type code outside TIFF 6.0: the inline bytes are kept as they are.
    Unknown { field_type_raw: u16, count: u32, value_offset_bytes: [u8; 4] },
}

/// Mathematical model of a `FieldState`.
pub enum FieldStateView {
    Local(FieldValueView),
    NotLoaded { field_type: FieldType, count: u32, offset: u32 },
    Loaded { value: FieldValueView, offset: u32 },
    Unknown { field_type_raw: u16, count: u32, value_offset_bytes: Seq<u8> },
}

impl View for FieldState {
    type V = FieldStateView;

    open spec fn view(&self) -> FieldStateView {
        match self {
            FieldState::Local(v) => FieldStateView::Local(v@),
            FieldState::NotLoaded { field_type, count, offset } => FieldStateView::NotLoaded {
                field_type: *field_type,
                count: *count,
                offset: *offset,
            },
            FieldState::Loaded { value, offset } => FieldStateView::Loaded {
                value: value@,
                offset: *offset,
            },
            FieldState::Unknown { field_type_raw, count, value_offset_bytes } => FieldStateView::Unknown {
                field_type_raw: *field_type_raw,
                count: *count,
                value_offset_bytes: value_offset_bytes@,
            },
        }
    }
}

/// A state is well formed when every element count fits the `u32` of a
/// directory entry and every out-of-line value has a representable size.
pub open spec fn state_wf(s: FieldStateView) -> bool {
    match s {
        FieldStateView::Local(v) => v.count() <= u32::MAX,
        FieldStateView::NotLoaded { field_type, count, .. } => buffer_size_of(field_type, count) is Some,
        FieldStateView::Loaded { value, .. } => value.count() <= u32::MAX && buffer_size_of(
            value.field_type(),
            value.count() as u32,
        ) is Some,
        FieldStateView::Unknown { value_offset_bytes, .. } => value_offset_bytes.len() == 4,
    }
}

/// The resolved type of a state; `None` for an unknown type code.
pub open spec fn state_field_type(s: FieldStateView) -> Option<FieldType> {
    match s {
        FieldStateView::Local(v) => Some(v.field_type()),
        FieldStateView::NotLoaded { field_type, .. } => Some(field_type),
        FieldStateView::Loaded { value, .. } => Some(value.field_type()),
        FieldStateView::Unknown { .. } => None,
    }
}

/// The element count of a state.
pub open spec fn state_count(s: FieldStateView) -> nat {
    match s {
        FieldStateView::Local(v) => v.count(),
        FieldStateView::NotLoaded { count, .. } => count as nat,
        FieldStateView::Loaded { value, .. } => value.count(),
        FieldStateView::Unknown { count, .. } => count as nat,
    }
}

/// The state that a directory entry with type code `raw`, element count
/// `count` and inline bytes `inline` starts in, or the error it gives.
pub open spec fn entry_state(raw: u16, count: u32, inline: Seq<u8>, e: Endianness) -> Result<
    FieldStateView,
    TiffReadError,
> {
    match field_type_of_code(raw) {
        None => Ok(FieldStateView::Unknown { field_type_raw: raw, count, value_offset_bytes: inline }),
        Some(t) => match buffer_size_of(t, count) {
            None => Err(TiffReadError::BufferSizeOverflow),
            Some(n) => if n <= 4 {
                Ok(FieldStateView::Local(decoded(t, count as nat, inline.subrange(0, n as int), e)))
            } else {
                Ok(FieldStateView::NotLoaded { field_type: t, count, offset: u32_from(inline, e) })
            },
        },
    }
}

/// Where and how many bytes must be read to load a state: only a pending
/// value asks for any.
pub open spec fn state_read_request(s: FieldStateView) -> Option<(u32, usize)> {
    match s {
        FieldStateView::NotLoaded { field_type, count, offset } => match buffer_size_of(
            field_type,
            count,
        ) {
            Some(n) => Some((offset, n)),
            None => None,
        },
        _ => None,
    }
}

/// The state after loading `s` from the bytes `b` read at its offset.
pub open spec fn loaded_state(s: FieldStateView, b: Seq<u8>, e: Endianness) -> Result<
    FieldStateView,
    TiffReadError,
> {
    match s {
        FieldStateView::NotLoaded { field_type, count, offset } => match buffer_size_of(
            field_type,
            count,
        ) {
            None => Err(TiffReadError::BufferSizeOverflow),
            Some(n) => if b.len() != n {
                Err(TiffReadError::BufferSizeMismatch)
            } else {
                Ok(FieldStateView::Loaded { value: decoded(field_type, count as nat, b, e), offset })
            },
        },
        _ => Ok(s),
    }
}

/// The state after dropping a loaded value: pending again at the same offset.
pub open spec fn unloaded_state(s: FieldStateView) -> FieldStateView {
    match s {
        FieldStateView::Loaded { value, offset } => FieldStateView::NotLoaded {
            field_type: value.field_type(),
            count: value.count() as u32,
            offset,
        },
        _ => s,
    }
}

impl FieldState {
    /// The state of a directory entry: unknown type codes keep their inline
    /// bytes; values of at most four bytes are decoded from them; larger
    /// ones stay pending at the offset the inline bytes encode.
    pub fn from_ifd_entry_data(
        field_type_raw: u16,
        count: u32,
        value_offset_bytes: [u8; 4],
        endianness: Endianness,
    ) -> (r: Result<FieldState, TiffReadError>)
        ensures
            match entry_state(field_type_raw, count, value_offset_bytes@, endianness) {
                Ok(s) => r is Ok && r->Ok_0@ == s && state_wf(s),
                Err(err) => r == Err::<FieldState, TiffReadError>(err),
            },
    {
        let field_type = match FieldType::from_u16(field_type_raw) {
            None => {
                return Ok(FieldState::Unknown { field_type_raw, count, value_offset_bytes });
            },
            Some(t) => t,
        };
        let size = match compute_value_buffer_size(field_type, count) {
            None => return Err(TiffReadError::BufferSizeOverflow),
            Some(n) => n,
        };
        if size <= 4 {
            let mut inline: Vec<u8> = Vec::new();
            let mut i: usize = 0;
            while i < size
                invariant
                    size <= 4,
                    i <= size,
                    inline@ =~= value_offset_bytes@.subrange(0, i as int),
                decreases size - i,
            {
                inline.push(value_offset_bytes[i]);
                i += 1;
            }
            match value_from_buffer(field_type, count, inline.as_slice(), endianness) {
                Ok(value) => Ok(FieldState::Local(value)),
                Err(err) => Err(err),
            }
        } else {
            let offset = u32_at(value_offset_bytes.as_slice(), 0, endianness);
            assert(value_offset_bytes@.subrange(0, 4) =~= value_offset_bytes@);
            Ok(FieldState::NotLoaded { field_type, count, offset })
        }
    }
}

/// A decoded value has the type and the element count it was decoded with.
pub proof fn lemma_decoded_shape(t: FieldType, count: nat, b: Seq<u8>, e: Endianness)
    ensures
        decoded(t, count, b, e).field_type() == t,
        decoded(t, count, b, e).count() == count,
{
}

/// An entry whose values fit in its four inline bytes starts `Local`,
/// decoded from those bytes; it asks for no bytes to be read, and loading
/// it, whatever bytes are given, leaves it as it is.
pub proof fn lemma_inline_values_are_local(
    raw: u16,
    t: FieldType,
    count: u32,
    inline: Seq<u8>,
    e: Endianness,
    b: Seq<u8>,
)
    requires
        inline.len() == 4,
        field_type_of_code(raw) == Some(t),
        buffer_size_of(t, count) matches Some(n) && n <= 4,
    ensures
        ({
            let n = buffer_size_of(t, count)->0;
            let s = FieldStateView::Local(decoded(t, count as nat, inline.subrange(0, n as int), e));
            &&& entry_state(raw, count, inline, e) == Ok::<FieldStateView, TiffReadError>(s)
            &&& state_read_request(s) is None
            &&& loaded_state(s, b, e) == Ok::<FieldStateView, TiffReadError>(s)
        }),
{
}

/// An entry whose values do not fit in its four inline bytes starts
/// `NotLoaded` at the offset those bytes encode. Loading it, unloading it
/// and loading it again from the same bytes gives what loading it once gave.
pub proof fn lemma_reload_is_identical(
    raw: u16,
    t: FieldType,
    count: u32,
    inline: Seq<u8>,
    e: Endianness,
    b: Seq<u8>,
)
    requires
        inline.len() == 4,
        field_type_of_code(raw) == Some(t),
        buffer_size_of(t, count) matches Some(n) && n > 4,
    ensures
        ({
            let s = FieldStateView::NotLoaded { field_type: t, count, offset: u32_from(inline, e) };
            &&& entry_state(raw, count, inline, e) == Ok::<FieldStateView, TiffReadError>(s)
            &&& state_read_request(s) == Some((u32_from(inline, e), buffer_size_of(t, count)->0))
            &&& loaded_state(s, b, e) is Ok ==> {
                let once = loaded_state(s, b, e)->Ok_0;
                &&& unloaded_state(once) == s
                &&& loaded_state(unloaded_state(once), b, e) == loaded_state(s, b, e)
            }
        }),
{
    lemma_decoded_shape(t, count as nat, b, e);
}

/// An entry with a type code outside TIFF 6.0 is never decoded: it keeps its
/// inline bytes as they are, has no resolved type, asks for no bytes, and
/// loading leaves it as it is.
pub proof fn lemma_unknown_codes_stay_raw(
    raw: u16,
    count: u32,
    inline: Seq<u8>,
    e: Endianness,
    b: Seq<u8>,
)
    requires
        field_type_of_code(raw) is None,
    ensures
        ({
            let s = FieldStateView::Unknown { field_type_raw: raw, count, value_offset_bytes: inline };
            &&& entry_state(raw, count, inline, e) == Ok::<FieldStateView, TiffReadError>(s)
            &&& state_field_type(s) is None
            &&& state_read_request(s) is None
            &&& loaded_state(s, b, e) == Ok::<FieldStateView, TiffReadError>(s)
            &&& unloaded_state(s) == s
        }),
{
}

} // verus!
