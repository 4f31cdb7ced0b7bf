use vstd::prelude::*;

use std::collections::BTreeMap;
use vstd::std_specs::iter::IteratorSpec;

use crate::decode::{u16_at, u16_from, u32_at, u32_from, FieldValue};
use crate::error::TiffReadError;
use crate::field::{
    entry_state, loaded_state, state_count, state_field_type, state_read_request, state_wf,
    unloaded_state, FieldState, FieldStateView,
};
use crate::types::{compute_value_buffer_size, Endianness, FieldType};

verus! {

/// Mathematical model of a `Field`.
pub struct FieldView {
    pub endianness: Endianness,
    pub state: FieldStateView,
}

/// One tag's value in one directory, with the byte order of its file.
#[derive(Debug, Clone)]
pub struct Field {
    endianness: Endianness,
    state: FieldState,
}

impl View for Field {
    type V = FieldView;

    closed spec fn view(&self) -> FieldView {
        FieldView { endianness: self.endianness, state: self.state@ }
    }
}

impl Field {
    pub open spec fn wf(&self) -> bool {
        state_wf(self@.state)
    }

    /// The byte order in which a pending value will be decoded.
    pub fn endianness(&self) -> (r: Endianness)
        ensures
            r == self@.endianness,
    {
        self.endianness
    }

    /// The current state.
    pub fn state(&self) -> (r: &FieldState)
        ensures
            r@ == self@.state,
    {
        &self.state
    }

    /// The resolved type, or `None` for an unknown type code.
    pub fn field_type(&self) -> (r: Option<FieldType>)
        ensures
            r == state_field_type(self@.state),
    {
        match &self.state {
            FieldState::Local(value) => Some(value.field_type()),
            FieldState::NotLoaded { field_type, .. } => Some(*field_type),
            FieldState::Loaded { value, .. } => Some(value.field_type()),
            FieldState::Unknown { .. } => None,
        }
    }

    /// The element count; known in every state.
    pub fn count(&self) -> (r: u32)
        requires
            self.wf(),
        ensures
            r == state_count(self@.state),
    {
        match &self.state {
            FieldState::Local(value) => value.count() as u32,
            FieldState::NotLoaded { count, .. } => *count,
            FieldState::Loaded { value, .. } => value.count() as u32,
            FieldState::Unknown { count, .. } => *count,
        }
    }

    /// The value, only when it was decoded from the directory entry itself.
    pub fn get_value_if_local(&self) -> (r: Option<&FieldValue>)
        ensures
            match self@.state {
                FieldStateView::Local(v) => r is Some && r->0@ == v,
                _ => r is None,
            },
    {
        match &self.state {
            FieldState::Local(value) => Some(value),
            _ => None,
        }
    }

    /// The value if it is at hand: local, or loaded.
    pub fn get_value(&self) -> (r: Option<&FieldValue>)
        ensures
            match self@.state {
                FieldStateView::Local(v) => r is Some && r->0@ == v,
                FieldStateView::Loaded { value, .. } => r is Some && r->0@ == value,
                _ => r is None,
            },
    {
        match &self.state {
            FieldState::Local(value) => Some(value),
            FieldState::Loaded { value, .. } => Some(value),
            _ => None,
        }
    }

    /// The offset and length of the bytes that loading this field needs;
    /// `None` when it needs none.
    pub fn read_request(&self) -> (r: Option<(u32, usize)>)
        requires
            self.wf(),
        ensures
            r == state_read_request(self@.state),
    {
        match &self.state {
            FieldState::NotLoaded { field_type, count, offset } => {
                match compute_value_buffer_size(*field_type, *count) {
                    Some(n) => Some((*offset, n)),
                    None => None,
                }
            },
            _ => None,
        }
    }

    /// Loads a pending value from `buffer`, the bytes read at its offset.
    /// Other states are left as they are.
    pub fn load(&mut self, buffer: &[u8]) -> (r: Result<(), TiffReadError>)
        requires
            old(self).wf(),
        ensures
            final(self).wf(),
            final(self)@.endianness == old(self)@.endianness,
            match loaded_state(old(self)@.state, buffer@, old(self)@.endianness) {
                Ok(s) => r is Ok && final(self)@.state == s,
                Err(err) => r == Err::<(), TiffReadError>(err) && final(self)@ == old(self)@,
            },
    {
        match &self.state {
            FieldState::NotLoaded { field_type, count, offset } => {
                let offset = *offset;
                match crate::decode::value_from_buffer(*field_type, *count, buffer, self.endianness) {
                    Ok(value) => {
                        self.state = FieldState::Loaded { value, offset };
                        Ok(())
                    },
                    Err(err) => Err(err),
                }
            },
            _ => Ok(()),
        }
    }

    /// Drops a loaded value, leaving the field pending at the same offset.
    /// Other states are left as they are.
    pub fn unload(&mut self)
        requires
            old(self).wf(),
        ensures
            final(self).wf(),
            final(self)@.endianness == old(self)@.endianness,
            final(self)@.state == unloaded_state(old(self)@.state),
    {
        match &self.state {
            FieldState::Loaded { value, offset } => {
                let field_type = value.field_type();
                let count = value.count() as u32;
                let offset = *offset;
                self.state = FieldState::NotLoaded { field_type, count, offset };
            },
            _ => {},
        }
    }
}

} // verus!

verus! {

/// The twelve bytes of directory entry `i` in the bytes that follow an
/// IFD's entry count.
pub open spec fn entry_bytes(d: Seq<u8>, i: int) -> Seq<u8> {
    d.subrange(12 * i, 12 * i + 12)
}

pub open spec fn entry_tag(d: Seq<u8>, i: int, e: Endianness) -> u16 {
    u16_from(entry_bytes(d, i), e)
}

pub open spec fn entry_type_code(d: Seq<u8>, i: int, e: Endianness) -> u16 {
    u16_from(entry_bytes(d, i).subrange(2, 4), e)
}

pub open spec fn entry_count(d: Seq<u8>, i: int, e: Endianness) -> u32 {
    u32_from(entry_bytes(d, i).subrange(4, 8), e)
}

pub open spec fn entry_inline(d: Seq<u8>, i: int) -> Seq<u8> {
    entry_bytes(d, i).subrange(8, 12)
}

/// The tag table that the first `n` entries give, in file order: an entry
/// replaces an earlier one with the same tag. The first entry whose state
/// cannot be formed gives the error.
pub open spec fn parsed_entries(d: Seq<u8>, n: nat, e: Endianness) -> Result<
    Map<u16, FieldStateView>,
    TiffReadError,
>
    decreases n,
{
    if n == 0 {
        Ok(Map::empty())
    } else {
        let i = n - 1;
        match parsed_entries(d, i as nat, e) {
            Err(err) => Err(err),
            Ok(m) => match entry_state(
                entry_type_code(d, i, e),
                entry_count(d, i, e),
                entry_inline(d, i),
                e,
            ) {
                Err(err) => Err(err),
                Ok(s) => Ok(m.insert(entry_tag(d, i, e), s)),
            },
        }
    }
}

/// Once an entry fails, the table of any longer prefix fails the same way.
proof fn lemma_parse_error_persists(d: Seq<u8>, i: nat, n: nat, e: Endianness)
    requires
        i <= n,
        parsed_entries(d, i, e) is Err,
    ensures
        parsed_entries(d, n, e) == parsed_entries(d, i, e),
    decreases n - i,
{
    if i < n {
        lemma_parse_error_persists(d, i, (n - 1) as nat, e);
    }
}

/// The next-IFD offset stored after `n` entries; zero ends the chain.
pub open spec fn next_ifd_after(d: Seq<u8>, n: nat, e: Endianness) -> Option<u32> {
    let at = 12 * n as int;
    let raw = u32_from(d.subrange(at, at + 4), e);
    if raw == 0 {
        None
    } else {
        Some(raw)
    }
}

/// Mathematical model of a `Subfile`.
pub struct SubfileView {
    pub endianness: Endianness,
    pub offset: u32,
    pub fields: Map<u16, FieldStateView>,
    pub offset_to_next_ifd: Option<u32>,
}

/// One image file directory: its fields by tag, and where the next one is.
#[derive(Debug)]
pub struct Subfile {
    endianness: Endianness,
    offset: u32,
    fields: BTreeMap<u16, Field>,
    offset_to_next_ifd: Option<u32>,
}

impl View for Subfile {
    type V = SubfileView;

    closed spec fn view(&self) -> SubfileView {
        SubfileView {
            endianness: self.endianness,
            offset: self.offset,
            fields: self.fields@.map_values(|f: Field| f@.state),
            offset_to_next_ifd: self.offset_to_next_ifd,
        }
    }
}

impl Subfile {
    /// Every field is well formed and carries the directory's byte order.
    pub closed spec fn wf(&self) -> bool {
        forall|tag: u16| #[trigger]
            self.fields@.contains_key(tag) ==> self.fields@[tag].wf()
                && self.fields@[tag]@.endianness == self.endianness
    }

    /// The entry count that the first two bytes of a directory encode.
    pub fn entry_count_from_bytes(bytes: [u8; 2], endianness: Endianness) -> (r: u16)
        ensures
            r == u16_from(bytes@, endianness),
    {
        let r = u16_at(bytes.as_slice(), 0, endianness);
        assert(bytes@.subrange(0, 2) =~= bytes@);
        r
    }

    /// The number of bytes that follow the entry count: twelve per entry,
    /// then the four-byte next-IFD offset.
    pub fn directory_size(entry_count: u16) -> (r: usize)
        ensures
            r == 12 * entry_count + 4,
    {
        12 * (entry_count as usize) + 4
    }

    /// Parses the directory found at `offset`: `directory` holds the bytes
    /// that follow its entry count, of which the first
    /// `directory_size(entry_count)` are read.
    pub fn new(offset: u32, entry_count: u16, directory: &[u8], endianness: Endianness) -> (r:
        Result<Subfile, TiffReadError>)
        ensures
            directory@.len() < 12 * entry_count + 4 ==> r == Err::<Subfile, TiffReadError>(
                TiffReadError::UnexpectedEnd,
            ),
            directory@.len() >= 12 * entry_count + 4 ==> match parsed_entries(
                directory@,
                entry_count as nat,
                endianness,
            ) {
                Err(err) => r == Err::<Subfile, TiffReadError>(err),
                Ok(m) => r is Ok && r->Ok_0.wf() && r->Ok_0@ == (SubfileView {
                    endianness,
                    offset,
                    fields: m,
                    offset_to_next_ifd: next_ifd_after(directory@, entry_count as nat, endianness),
                }),
            },
    {
        let n = entry_count as usize;
        if directory.len() < Self::directory_size(entry_count) {
            return Err(TiffReadError::UnexpectedEnd);
        }
        let ghost d = directory@;
        let mut fields: BTreeMap<u16, Field> = BTreeMap::new();
        let mut i: usize = 0;
        while i < n
            invariant
                n == entry_count,
                d == directory@,
                d.len() >= 12 * n + 4,
                i <= n,
                parsed_entries(d, i as nat, endianness) is Ok,
                fields@.map_values(|f: Field| f@.state) =~= parsed_entries(
                    d,
                    i as nat,
                    endianness,
                )->Ok_0,
                forall|tag: u16| #[trigger]
                    fields@.contains_key(tag) ==> fields@[tag].wf() && fields@[tag]@.endianness
                        == endianness,
            decreases n - i,
        {
            let at = 12 * i;
            let tag = u16_at(directory, at, endianness);
            let field_type_raw = u16_at(directory, at + 2, endianness);
            let count = u32_at(directory, at + 4, endianness);
            let inline: [u8; 4] = [
                directory[at + 8],
                directory[at + 9],
                directory[at + 10],
                directory[at + 11],
            ];
            proof {
                let entry = entry_bytes(d, i as int);
                assert(entry.subrange(2, 4) =~= d.subrange(at + 2, at + 4));
                assert(entry.subrange(4, 8) =~= d.subrange(at + 4, at + 8));
                assert(inline@ =~= entry_inline(d, i as int));
            }
            let state = match FieldState::from_ifd_entry_data(field_type_raw, count, inline, endianness) {
                Ok(state) => state,
                Err(err) => {
                    proof {
                        lemma_parse_error_persists(d, (i + 1) as nat, n as nat, endianness);
                    }
                    return Err(err);
                },
            };
            let field = Field { endianness, state };
            fields.insert(tag, field);
            i += 1;
        }
        let next_raw = u32_at(directory, 12 * n, endianness);
        let offset_to_next_ifd = if next_raw == 0 {
            None
        } else {
            Some(next_raw)
        };
        Ok(Subfile { endianness, offset, fields, offset_to_next_ifd })
    }
}

} // verus!

verus! {

impl Subfile {
    /// Offset of the next directory, `None` at the end of the chain.
    pub fn offset_to_next_ifd(&self) -> (r: Option<u32>)
        ensures
            r == self@.offset_to_next_ifd,
    {
        self.offset_to_next_ifd
    }

    /// Offset at which this directory was read.
    pub fn offset(&self) -> (r: u32)
        ensures
            r == self@.offset,
    {
        self.offset
    }

    pub fn endianness(&self) -> (r: Endianness)
        ensures
            r == self@.endianness,
    {
        self.endianness
    }

    /// The field with this tag, if the directory has one.
    pub fn get_field(&self, tag: u16) -> (r: Option<&Field>)
        requires
            self.wf(),
        ensures
            match r {
                Some(f) => self@.fields.contains_key(tag) && f@.state == self@.fields[tag]
                    && f@.endianness == self@.endianness && f.wf(),
                None => !self@.fields.contains_key(tag),
            },
    {
        assert(vstd::std_specs::btree::key_obeys_cmp_spec::<u16>());
        self.fields.get(&tag)
    }

    /// The value of the field with this tag, when it was decoded from the
    /// directory entry itself.
    pub fn get_field_value_if_local(&self, tag: u16) -> (r: Option<&FieldValue>)
        requires
            self.wf(),
        ensures
            match r {
                Some(v) => self@.fields.contains_key(tag) && self@.fields[tag]
                    == FieldStateView::Local(v@),
                None => !self@.fields.contains_key(tag) || !(self@.fields[tag] is Local),
            },
    {
        match self.get_field(tag) {
            Some(field) => field.get_value_if_local(),
            None => None,
        }
    }

    /// Offset and length of the bytes that loading this tag's field needs;
    /// `None` for an absent tag or a field that needs none.
    pub fn field_read_request(&self, tag: u16) -> (r: Option<(u32, usize)>)
        requires
            self.wf(),
        ensures
            r == (if self@.fields.contains_key(tag) {
                state_read_request(self@.fields[tag])
            } else {
                None
            }),
    {
        match self.get_field(tag) {
            Some(field) => field.read_request(),
            None => None,
        }
    }

    /// Every tag of the directory, each once.
    pub fn tags(&self) -> (r: Vec<u16>)
        ensures
            r@.to_set() == self@.fields.dom(),
            r@.no_duplicates(),
    {
        let mut r: Vec<u16> = Vec::new();
        let ghost keys = self.fields.keys();
        assert(vstd::std_specs::btree::key_obeys_cmp_spec::<u16>());
        for tag in it: self.fields.keys()
            invariant
                r@ == it.history().map_values(|x: &u16| *x),
                it.seq() == keys.remaining(),
        {
            r.push(*tag);
        }
        proof {
            vstd::std_specs::btree::axiom_spec_keys_iter(&self.fields);
        }
        assert(r@ =~= keys.remaining().map_values(|x: &u16| *x));
        assert(r@ =~= keys.remaining().unref());
        assert(r@.to_set() =~= self@.fields.dom());
        r
    }

    /// Loads the field with this tag from `buffer`, the bytes read at its
    /// offset. An absent tag, or a field that needs no bytes, changes nothing.
    pub fn load_field_value(&mut self, tag: u16, buffer: &[u8]) -> (r: Result<(), TiffReadError>)
        requires
            old(self).wf(),
        ensures
            final(self).wf(),
            final(self)@.endianness == old(self)@.endianness,
            final(self)@.offset == old(self)@.offset,
            final(self)@.offset_to_next_ifd == old(self)@.offset_to_next_ifd,
            !old(self)@.fields.contains_key(tag) ==> r is Ok && final(self)@ == old(self)@,
            old(self)@.fields.contains_key(tag) ==> match loaded_state(
                old(self)@.fields[tag],
                buffer@,
                old(self)@.endianness,
            ) {
                Ok(s) => r is Ok && final(self)@.fields == old(self)@.fields.insert(tag, s),
                Err(err) => r == Err::<(), TiffReadError>(err) && final(self)@.fields == old(
                    self,
                )@.fields,
            },
    {
        assert(vstd::std_specs::btree::key_obeys_cmp_spec::<u16>());
        match self.fields.remove(&tag) {
            None => {
                assert(self.fields@ =~= old(self).fields@);
                Ok(())
            },
            Some(mut field) => {
                let r = field.load(buffer);
                self.fields.insert(tag, field);
                proof {
                    assert(self.fields@.map_values(|f: Field| f@.state) =~= match r {
                        Ok(_) => old(self)@.fields.insert(tag, field@.state),
                        Err(_) => old(self)@.fields,
                    });
                }
                r
            },
        }
    }

    /// Drops the loaded value of the field with this tag, if it has one.
    pub fn unload_field_value(&mut self, tag: u16)
        requires
            old(self).wf(),
        ensures
            final(self).wf(),
            final(self)@.endianness == old(self)@.endianness,
            final(self)@.offset == old(self)@.offset,
            final(self)@.offset_to_next_ifd == old(self)@.offset_to_next_ifd,
            final(self)@.fields == (if old(self)@.fields.contains_key(tag) {
                old(self)@.fields.insert(tag, unloaded_state(old(self)@.fields[tag]))
            } else {
                old(self)@.fields
            }),
    {
        assert(vstd::std_specs::btree::key_obeys_cmp_spec::<u16>());
        match self.fields.remove(&tag) {
            None => {
                assert(self.fields@ =~= old(self).fields@);
            },
            Some(mut field) => {
                field.unload();
                self.fields.insert(tag, field);
                assert(self.fields@.map_values(|f: Field| f@.state) =~= old(self)@.fields.insert(
                    tag,
                    unloaded_state(old(self)@.fields[tag]),
                ));
            },
        }
    }

    /// Drops every loaded value, leaving those fields pending again.
    pub fn unload_all_field_values(&mut self)
        requires
            old(self).wf(),
        ensures
            final(self).wf(),
            final(self)@.endianness == old(self)@.endianness,
            final(self)@.offset == old(self)@.offset,
            final(self)@.offset_to_next_ifd == old(self)@.offset_to_next_ifd,
            final(self)@.fields == old(self)@.fields.map_values(|s: FieldStateView| unloaded_state(s)),
    {
        let tags = self.tags();
        let ghost before = self@.fields;
        let mut i: usize = 0;
        while i < tags.len()
            invariant
                self.wf(),
                self@.endianness == old(self)@.endianness,
                self@.offset == old(self)@.offset,
                self@.offset_to_next_ifd == old(self)@.offset_to_next_ifd,
                before == old(self)@.fields,
                tags@.to_set() == before.dom(),
                tags@.no_duplicates(),
                i <= tags@.len(),
                self@.fields.dom() == before.dom(),
                forall|k: int|
                    0 <= k < i ==> self@.fields[#[trigger] tags@[k]] == unloaded_state(
                        before[tags@[k]],
                    ),
                forall|tag: u16| #[trigger]
                    before.contains_key(tag) ==> self@.fields[tag] == before[tag]
                        || self@.fields[tag] == unloaded_state(before[tag]),
            decreases tags.len() - i,
        {
            let tag = tags[i];
            assert(tags@.to_set().contains(tag));
            self.unload_field_value(tag);
            assert(self@.fields.dom() =~= before.dom());
            i += 1;
        }
        assert forall|t: u16| #[trigger] before.contains_key(t) implies self@.fields[t]
            == unloaded_state(before[t]) by {
            assert(tags@.to_set().contains(t));
            let k = choose|k: int| 0 <= k < tags@.len() && tags@[k] == t;
            assert(self@.fields[tags@[k]] == unloaded_state(before[tags@[k]]));
        }
        assert(self@.fields =~= before.map_values(|s: FieldStateView| unloaded_state(s)));
    }
}

} // verus!
