use vstd::prelude::*;

pub mod decode;
pub mod error;
pub mod field;
pub mod subfile;
pub mod types;

use vstd::arithmetic::div_mod::{lemma_fundamental_div_mod, lemma_fundamental_div_mod_converse};
use vstd::set_lib::{lemma_int_range, lemma_len_subset, set_int_range};

use crate::decode::{u32_at, u32_from};
use crate::error::TiffReadError;
use crate::subfile::{Subfile, SubfileView};
use crate::types::Endianness;

verus! {

/// The byte order that the first four bytes of a header announce:
/// `II*\0` for little-endian, `MM\0*` for big-endian.
pub open spec fn magic_endianness(b: Seq<u8>) -> Option<Endianness> {
    if b[0] == 0x49 && b[1] == 0x49 && b[2] == 0x2A && b[3] == 0x00 {
        Some(Endianness::Little)
    } else if b[0] == 0x4D && b[1] == 0x4D && b[2] == 0x00 && b[3] == 0x2A {
        Some(Endianness::Big)
    } else {
        None
    }
}

/// What the eight header bytes `b` say, or why they say nothing.
pub open spec fn parsed_header(b: Seq<u8>) -> Result<Header, TiffReadError> {
    match magic_endianness(b) {
        None => Err(TiffReadError::InvalidMagic),
        Some(e) => Ok(Header { endianness: e, offset_to_first_ifd: u32_from(b.subrange(4, 8), e) }),
    }
}

/// The four bytes that encode `x` in byte order `e`.
pub open spec fn u32_bytes(x: u32, e: Endianness) -> Seq<u8> {
    let little = seq![
        (x % 0x100) as u8,
        ((x / 0x100) % 0x100) as u8,
        ((x / 0x1_0000) % 0x100) as u8,
        (x / 0x100_0000) as u8,
    ];
    match e {
        Endianness::Little => little,
        Endianness::Big => little.reverse(),
    }
}

/// The eight bytes that encode a header.
pub open spec fn header_bytes(h: Header) -> Seq<u8> {
    let magic = match h.endianness {
        Endianness::Little => seq![0x49u8, 0x49u8, 0x2Au8, 0x00u8],
        Endianness::Big => seq![0x4Du8, 0x4Du8, 0x00u8, 0x2Au8],
    };
    magic + u32_bytes(h.offset_to_first_ifd, h.endianness)
}

/// The eight-byte file header: byte order and where the first directory is.
#[derive(Debug, PartialEq, Eq, Clone, Copy, Structural)]
pub struct Header {
    pub endianness: Endianness,
    pub offset_to_first_ifd: u32,
}

impl Header {
    /// Reads the byte-order mark and the first-directory offset.
    pub fn from_bytes(bytes: &[u8; 8]) -> (r: Result<Header, TiffReadError>)
        ensures
            r == parsed_header(bytes@),
    {
        let endianness = if bytes[0] == 0x49 && bytes[1] == 0x49 && bytes[2] == 0x2A && bytes[3]
            == 0x00 {
            Endianness::Little
        } else if bytes[0] == 0x4D && bytes[1] == 0x4D && bytes[2] == 0x00 && bytes[3] == 0x2A {
            Endianness::Big
        } else {
            return Err(TiffReadError::InvalidMagic);
        };
        let offset_to_first_ifd = u32_at(bytes.as_slice(), 4, endianness);
        Ok(Header { endianness, offset_to_first_ifd })
    }
}

/// The four base-256 digits of `a + 0x100 * b + 0x1_0000 * c + 0x100_0000 * d`.
proof fn lemma_u32_digits(a: int, b: int, c: int, d: int)
    requires
        0 <= a < 0x100,
        0 <= b < 0x100,
        0 <= c < 0x100,
        0 <= d < 0x100,
    ensures
        ({
            let x = a + 0x100 * b + 0x1_0000 * c + 0x100_0000 * d;
            &&& x % 0x100 == a
            &&& (x / 0x100) % 0x100 == b
            &&& (x / 0x1_0000) % 0x100 == c
            &&& x / 0x100_0000 == d
        }),
{
    let x = a + 0x100 * b + 0x1_0000 * c + 0x100_0000 * d;
    lemma_fundamental_div_mod_converse(x, 0x100, b + 0x100 * c + 0x1_0000 * d, a);
    lemma_fundamental_div_mod_converse(x, 0x1_0000, c + 0x100 * d, a + 0x100 * b);
    lemma_fundamental_div_mod_converse(x, 0x100_0000, d, a + 0x100 * b + 0x1_0000 * c);
    lemma_fundamental_div_mod_converse(x / 0x100, 0x100, c + 0x100 * d, b);
    lemma_fundamental_div_mod_converse(x / 0x1_0000, 0x100, d, c);
}

/// Decoding a header's bytes and encoding the result gives back the same
/// eight bytes.
pub proof fn lemma_header_bytes_round_trip(b: Seq<u8>)
    requires
        b.len() == 8,
        parsed_header(b) is Ok,
    ensures
        header_bytes(parsed_header(b)->Ok_0) == b,
{
    let h = parsed_header(b)->Ok_0;
    let x = h.offset_to_first_ifd;
    let (b4, b5, b6, b7) = (b[4] as int, b[5] as int, b[6] as int, b[7] as int);
    match h.endianness {
        Endianness::Little => {
            assert(x == b4 + 0x100 * b5 + 0x1_0000 * b6 + 0x100_0000 * b7);
            lemma_u32_digits(b4, b5, b6, b7);
        },
        Endianness::Big => {
            assert(x == 0x100_0000 * b4 + 0x1_0000 * b5 + 0x100 * b6 + b7);
            lemma_u32_digits(b7, b6, b5, b4);
        },
    }
    assert(header_bytes(h) =~= b);
}

/// Encoding a header and decoding the bytes gives back the same header.
pub proof fn lemma_header_round_trip(h: Header)
    ensures
        parsed_header(header_bytes(h)) == Ok::<Header, TiffReadError>(h),
{
    let b = header_bytes(h);
    let x = h.offset_to_first_ifd as int;
    let q1 = x / 0x100;
    let q2 = q1 / 0x100;
    lemma_fundamental_div_mod(x, 0x100);
    lemma_fundamental_div_mod(q1, 0x100);
    lemma_fundamental_div_mod(q2, 0x100);
    let (d0, d1, d2, d3) = (x % 0x100, q1 % 0x100, q2 % 0x100, q2 / 0x100);
    assert(x == d0 + 0x100 * d1 + 0x1_0000 * d2 + 0x100_0000 * d3);
    lemma_u32_digits(d0, d1, d2, d3);
    assert(b.subrange(4, 8) =~= u32_bytes(h.offset_to_first_ifd, h.endianness));
    assert(u32_from(u32_bytes(h.offset_to_first_ifd, h.endianness), h.endianness) == x);
}

/// The offset of the directory that follows the subfiles `subfiles` read
/// so far: the first one when none was read, `None` when the last one ends
/// the chain, and an error when the chain leads back to a directory
/// already read.
pub open spec fn next_ifd(first: u32, subfiles: Seq<SubfileView>) -> Result<Option<u32>, TiffReadError> {
    if subfiles.len() == 0 {
        Ok(Some(first))
    } else {
        match subfiles.last().offset_to_next_ifd {
            None => Ok(None),
            Some(o) => if exists|i: int| 0 <= i < subfiles.len() && #[trigger] subfiles[i].offset == o {
                Err(TiffReadError::IfdCycle)
            } else {
                Ok(Some(o))
            },
        }
    }
}

/// No two directories read so far start at the same offset.
pub open spec fn offsets_distinct(subfiles: Seq<SubfileView>) -> bool {
    forall|i: int, j: int|
        0 <= i < j < subfiles.len() ==> #[trigger] subfiles[i].offset != #[trigger] subfiles[j].offset
}

/// Directories at distinct offsets number at most 2^32, one per `u32`
/// offset; so a chain followed through `next_ifd` ends, with `None` or with
/// `IfdCycle`, after at most that many directories.
pub proof fn lemma_chain_is_bounded(subfiles: Seq<SubfileView>)
    requires
        offsets_distinct(subfiles),
    ensures
        subfiles.len() <= 0x1_0000_0000,
{
    let offsets = subfiles.map_values(|s: SubfileView| s.offset as int);
    assert(offsets.no_duplicates()) by {
        assert forall|i: int, j: int| 0 <= i < offsets.len() && 0 <= j < offsets.len() && i != j implies offsets[i]
            != offsets[j] by {
            if i < j {
                assert(subfiles[i].offset != subfiles[j].offset);
            } else {
                assert(subfiles[j].offset != subfiles[i].offset);
            }
        }
    }
    offsets.unique_seq_to_set();
    lemma_int_range(0, 0x1_0000_0000);
    assert(offsets.to_set().subset_of(set_int_range(0, 0x1_0000_0000)));
    lemma_len_subset(offsets.to_set(), set_int_range(0, 0x1_0000_0000));
}

/// A TIFF file being read: its byte order, where its first directory is,
/// and the directories read so far, in file order.
#[derive(Debug)]
pub struct TiffReader {
    pub endianness: Endianness,
    pub offset_to_first_ifd: u32,
    pub subfiles: Vec<Subfile>,
}

impl TiffReader {
    /// The models of the directories read so far.
    pub open spec fn subfile_views(&self) -> Seq<SubfileView> {
        self.subfiles@.map_values(|s: Subfile| s@)
    }

    /// Starts reading a file from its first bytes, of which the first eight
    /// form the header. Fails on fewer than eight bytes, on an unknown
    /// byte-order mark, and on a first directory that starts inside the header.
    pub fn new(bytes: &[u8]) -> (r: Result<TiffReader, TiffReadError>)
        ensures
            bytes@.len() < 8 ==> r == Err::<TiffReader, TiffReadError>(TiffReadError::UnexpectedEnd),
            bytes@.len() >= 8 ==> match parsed_header(bytes@.subrange(0, 8)) {
                Err(err) => r == Err::<TiffReader, TiffReadError>(err),
                Ok(h) => if h.offset_to_first_ifd < 8 {
                    r == Err::<TiffReader, TiffReadError>(TiffReadError::FirstIfdOffsetTooLow)
                } else {
                    r is Ok && r->Ok_0.endianness == h.endianness
                        && r->Ok_0.offset_to_first_ifd == h.offset_to_first_ifd
                        && r->Ok_0.subfiles@.len() == 0
                },
            },
    {
        if bytes.len() < 8 {
            return Err(TiffReadError::UnexpectedEnd);
        }
        let header_bytes: [u8; 8] = [
            bytes[0],
            bytes[1],
            bytes[2],
            bytes[3],
            bytes[4],
            bytes[5],
            bytes[6],
            bytes[7],
        ];
        assert(header_bytes@ =~= bytes@.subrange(0, 8));
        let header = match Header::from_bytes(&header_bytes) {
            Ok(h) => h,
            Err(err) => return Err(err),
        };
        // A file has at least one directory, and it starts after the header.
        if header.offset_to_first_ifd < 8 {
            return Err(TiffReadError::FirstIfdOffsetTooLow);
        }
        Ok(TiffReader {
            endianness: header.endianness,
            offset_to_first_ifd: header.offset_to_first_ifd,
            subfiles: Vec::new(),
        })
    }

    /// The offset of the next directory to read, `None` when the chain has
    /// ended, or `IfdCycle` when it points back at a directory already read.
    pub fn next_ifd_offset(&self) -> (r: Result<Option<u32>, TiffReadError>)
        ensures
            r == next_ifd(self.offset_to_first_ifd, self.subfile_views()),
    {
        let n = self.subfiles.len();
        if n == 0 {
            return Ok(Some(self.offset_to_first_ifd));
        }
        let next = match self.subfiles[n - 1].offset_to_next_ifd() {
            None => return Ok(None),
            Some(o) => o,
        };
        let ghost views = self.subfile_views();
        assert(views.last().offset_to_next_ifd == Some(next));
        let mut i: usize = 0;
        while i < n
            invariant
                n == self.subfiles@.len(),
                n > 0,
                views.last().offset_to_next_ifd == Some(next),
                views == self.subfile_views(),
                i <= n,
                forall|k: int| 0 <= k < i ==> #[trigger] views[k].offset != next,
            decreases n - i,
        {
            if self.subfiles[i].offset() == next {
                assert(views[i as int].offset == next);
                return Err(TiffReadError::IfdCycle);
            }
            i += 1;
        }
        Ok(Some(next))
    }

    /// Appends a directory read at the offset that `next_ifd_offset` names.
    /// A directory read elsewhere, or in another byte order, is refused.
    pub fn add_subfile(&mut self, subfile: Subfile) -> (r: Result<(), TiffReadError>)
        ensures
            final(self).endianness == old(self).endianness,
            final(self).offset_to_first_ifd == old(self).offset_to_first_ifd,
            offsets_distinct(old(self).subfile_views()) ==> offsets_distinct(final(self).subfile_views()),
            if next_ifd(old(self).offset_to_first_ifd, old(self).subfile_views()) == Ok::<
                Option<u32>,
                TiffReadError,
            >(Some(subfile@.offset)) && subfile@.endianness == old(self).endianness {
                r is Ok && final(self).subfiles@ == old(self).subfiles@.push(subfile)
            } else {
                r == Err::<(), TiffReadError>(TiffReadError::UnexpectedSubfile)
                    && final(self).subfiles@ == old(self).subfiles@
            },
    {
        let expected = self.next_ifd_offset();
        match expected {
            Ok(Some(o)) => {
                if o == subfile.offset() && subfile.endianness() == self.endianness {
                    let ghost before = self.subfile_views();
                    self.subfiles.push(subfile);
                    assert(self.subfile_views() =~= before.push(subfile@));
                    Ok(())
                } else {
                    Err(TiffReadError::UnexpectedSubfile)
                }
            },
            _ => Err(TiffReadError::UnexpectedSubfile),
        }
    }
}

} // verus!
