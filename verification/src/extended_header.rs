//! The optional extended header: a syncsafe size, a flag-byte count, the
//! flag bytes, and one length-prefixed data block per set flag bit, walked
//! in ascending byte-then-bit order.
use vstd::prelude::*;

use crate::encoding::subvec;
use crate::utils::bit_mask;
use crate::utils::read_syncsafe_integer;
use crate::utils::syncsafe4;
use crate::utils::BitPosition;

verus! {

#[derive(PartialEq, Eq, Structural, Clone, Debug)]
pub enum ExtendedHeaderReadError {
    /// The stream ended before a prefix, the flag bytes, or a declared
    /// data block could be fully read.
    NotEnoughBytes,
    /// The CRC data block must declare size 5; the offending size is
    /// carried along.
    InvalidTagCRCSize(u8),
    /// The tag-restrictions block must declare size 1; the offending size
    /// is carried along.
    InvalidFlagTagRestrictionSize(u8),
}

#[derive(PartialEq, Eq, Structural, Clone, Debug, Default)]
pub enum TagSizeRestrictions {
    #[default]
    Max128Frames1MB,
    Max64Frames128KB,
    Max32Frames40KB,
    Max32Frames4KB,
}

#[derive(PartialEq, Eq, Structural, Clone, Debug, Default)]
pub enum TextEncodingRestrictions {
    #[default]
    NoRestrictions,
    ISO88591OrUTF8,
}

#[derive(PartialEq, Eq, Structural, Clone, Debug, Default)]
pub enum TextFieldSizeRestrictions {
    #[default]
    NoRestrictions,
    Max1024Chars,
    Max128Chars,
    Max30Chars,
}

#[derive(PartialEq, Eq, Structural, Clone, Debug, Default)]
pub enum ImageEncodingRestrictions {
    #[default]
    NoRestrictions,
    PngOrJpeg,
}

#[derive(PartialEq, Eq, Structural, Clone, Debug, Default)]
pub enum ImageSizeRestrictions {
    #[default]
    NoRestrictions,
    Max256x256Pixels,
    Max64x64Pixels,
    Exactly64x64Pixels,
}

/// Five independent restrictions decoded from one data byte.
#[derive(PartialEq, Eq, Structural, Clone, Debug, Default)]
pub struct TagRestrictions {
    pub tag_size_restrictions: TagSizeRestrictions,
    pub text_encoding_restrictions: TextEncodingRestrictions,
    pub text_field_size_restrictions: TextFieldSizeRestrictions,
    pub image_encoding_restrictions: ImageEncodingRestrictions,
    pub image_size_restrictions: ImageSizeRestrictions,
}

/// The typed meaning of one flag's data block, fixed by the flag's byte
/// index and bit position.
#[derive(PartialEq, Eq, Structural, Clone, Debug)]
pub enum ExtendedHeaderFlagDataType {
    TagIsAnUpdate,
    CrcDataPresent,
    TagRestrictions(TagRestrictions),
    Unknown(u8, BitPosition),
}

/// One flag's data block: its length prefix, the raw bytes, and the typed
/// meaning.
#[derive(PartialEq, Clone, Debug)]
pub struct ExtendedHeaderFlagData {
    /// in bytes
    pub size: u8,
    pub data: Vec<u8>,
    pub typ: ExtendedHeaderFlagDataType,
}

/// Mathematical value of an `ExtendedHeaderFlagData`.
pub ghost struct FlagDataV {
    pub size: u8,
    pub data: Seq<u8>,
    pub typ: ExtendedHeaderFlagDataType,
}

impl View for ExtendedHeaderFlagData {
    type V = FlagDataV;

    open spec fn view(&self) -> FlagDataV {
        FlagDataV { size: self.size, data: self.data@, typ: self.typ }
    }
}

/// The parsed extended header.
#[derive(PartialEq, Clone, Debug)]
pub struct ExtendedHeader {
    pub extended_header_size: u32,
    pub number_of_flag_bytes: u8,
    pub flag_bytes: Vec<u8>,
    pub flag_data: Vec<ExtendedHeaderFlagData>,
}

/// Mathematical value of an `ExtendedHeader`.
pub ghost struct ExtendedHeaderV {
    pub extended_header_size: u32,
    pub number_of_flag_bytes: u8,
    pub flag_bytes: Seq<u8>,
    pub flag_data: Seq<FlagDataV>,
}

impl View for ExtendedHeader {
    type V = ExtendedHeaderV;

    open spec fn view(&self) -> ExtendedHeaderV {
        ExtendedHeaderV {
            extended_header_size: self.extended_header_size,
            number_of_flag_bytes: self.number_of_flag_bytes,
            flag_bytes: self.flag_bytes@,
            flag_data: self.flag_data@.map_values(|d: ExtendedHeaderFlagData| d@),
        }
    }
}

/// The restrictions encoded in one byte, by the five fixed bit fields.
pub open spec fn spec_restrictions(b: u8) -> TagRestrictions {
    TagRestrictions {
        tag_size_restrictions: {
            let v = (b & 0xC0) >> 6;
            if v == 0 {
                TagSizeRestrictions::Max128Frames1MB
            } else if v == 1 {
                TagSizeRestrictions::Max64Frames128KB
            } else if v == 2 {
                TagSizeRestrictions::Max32Frames40KB
            } else {
                TagSizeRestrictions::Max32Frames4KB
            }
        },
        text_encoding_restrictions: {
            if (b & 0x20) >> 5 == 0 {
                TextEncodingRestrictions::NoRestrictions
            } else {
                TextEncodingRestrictions::ISO88591OrUTF8
            }
        },
        text_field_size_restrictions: {
            let v = (b & 0x18) >> 3;
            if v == 0 {
                TextFieldSizeRestrictions::NoRestrictions
            } else if v == 1 {
                TextFieldSizeRestrictions::Max1024Chars
            } else if v == 2 {
                TextFieldSizeRestrictions::Max128Chars
            } else {
                TextFieldSizeRestrictions::Max30Chars
            }
        },
        image_encoding_restrictions: {
            if (b & 0x04) >> 2 == 0 {
                ImageEncodingRestrictions::NoRestrictions
            } else {
                ImageEncodingRestrictions::PngOrJpeg
            }
        },
        image_size_restrictions: {
            let v = b & 0x03;
            if v == 0 {
                ImageSizeRestrictions::NoRestrictions
            } else if v == 1 {
                ImageSizeRestrictions::Max256x256Pixels
            } else if v == 2 {
                ImageSizeRestrictions::Max64x64Pixels
            } else {
                ImageSizeRestrictions::Exactly64x64Pixels
            }
        },
    }
}

/// The set bits of `byte` from bit `j` upward, each as the pair of the
/// byte's index and the bit's position, ascending.
pub open spec fn spec_byte_positions(byte: u8, byte_index: int, j: int) -> Seq<(int, int)>
    decreases 8 - j,
    when j >= 0
{
    if j >= 8 {
        Seq::empty()
    } else if byte & bit_mask(j) != 0 {
        seq![(byte_index, j)] + spec_byte_positions(byte, byte_index, j + 1)
    } else {
        spec_byte_positions(byte, byte_index, j + 1)
    }
}

/// The set bits across the flag bytes from byte `i` on, in ascending
/// (byte index, bit position) order, least significant bit first.
pub open spec fn spec_positions(fb: Seq<u8>, i: int) -> Seq<(int, int)>
    decreases fb.len() - i,
    when i >= 0
{
    if i >= fb.len() {
        Seq::empty()
    } else {
        spec_byte_positions(fb[i], i, 0) + spec_positions(fb, i + 1)
    }
}

/// The typed meaning of the data block belonging to the flag at byte
/// `byte_index`, bit `j`: byte 0 fixes an update marker at bit 6, CRC data
/// at bit 5 and tag restrictions at bit 4 (a missing restrictions byte
/// counts as all-zero); every other position is kept opaque.
pub open spec fn spec_classify_flag(byte_index: int, j: int, data: Seq<u8>)
    -> ExtendedHeaderFlagDataType {
    if byte_index == 0 && j == 6 {
        ExtendedHeaderFlagDataType::TagIsAnUpdate
    } else if byte_index == 0 && j == 5 {
        ExtendedHeaderFlagDataType::CrcDataPresent
    } else if byte_index == 0 && j == 4 {
        ExtendedHeaderFlagDataType::TagRestrictions(
            spec_restrictions(
                if data.len() > 0 {
                    data[0]
                } else {
                    0
                },
            ),
        )
    } else {
        ExtendedHeaderFlagDataType::Unknown(byte_index as u8, BitPosition::position_at(j))
    }
}

/// The flag data blocks read at `pos` for the set-bit positions `ps`, in
/// order: each block is a length byte and that many data bytes; the CRC
/// block must declare size 5 and the restrictions block size 1.
pub open spec fn spec_parse_entries(s: Seq<u8>, pos: int, ps: Seq<(int, int)>) -> Result<
    (Seq<FlagDataV>, int),
    ExtendedHeaderReadError,
>
    decreases ps.len(),
{
    if ps.len() == 0 {
        Ok((Seq::empty(), pos))
    } else if pos + 1 > s.len() {
        Err(ExtendedHeaderReadError::NotEnoughBytes)
    } else {
        let sz = s[pos];
        let bi = ps[0].0;
        let j = ps[0].1;
        if bi == 0 && j == 5 && sz != 5 {
            Err(ExtendedHeaderReadError::InvalidTagCRCSize(sz))
        } else if bi == 0 && j == 4 && sz != 1 {
            Err(ExtendedHeaderReadError::InvalidFlagTagRestrictionSize(sz))
        } else if pos + 1 + sz > s.len() {
            Err(ExtendedHeaderReadError::NotEnoughBytes)
        } else {
            let data = s.subrange(pos + 1, pos + 1 + sz);
            let entry = FlagDataV { size: sz, data, typ: spec_classify_flag(bi, j, data) };
            match spec_parse_entries(s, pos + 1 + sz, ps.drop_first()) {
                Err(e) => Err(e),
                Ok((rest, end)) => Ok((seq![entry] + rest, end)),
            }
        }
    }
}

/// What the bytes at `pos` parse to as an extended header: the syncsafe
/// size, the flag-byte count, that many flag bytes, then one data block
/// per set bit.
pub open spec fn spec_read_extended_header(s: Seq<u8>, pos: int) -> Result<
    (ExtendedHeaderV, int),
    ExtendedHeaderReadError,
> {
    if pos + 5 > s.len() {
        Err(ExtendedHeaderReadError::NotEnoughBytes)
    } else {
        let size = syncsafe4(s[pos], s[pos + 1], s[pos + 2], s[pos + 3]);
        let n = s[pos + 4];
        if pos + 5 + n > s.len() {
            Err(ExtendedHeaderReadError::NotEnoughBytes)
        } else {
            let fb = s.subrange(pos + 5, pos + 5 + n);
            match spec_parse_entries(s, pos + 5 + n, spec_positions(fb, 0)) {
                Err(e) => Err(e),
                Ok((entries, end)) => Ok(
                    (
                        ExtendedHeaderV {
                            extended_header_size: size,
                            number_of_flag_bytes: n,
                            flag_bytes: fb,
                            flag_data: entries,
                        },
                        end,
                    ),
                ),
            }
        }
    }
}

/// Sum of each block's declared length plus its one length byte.
pub open spec fn sum_entry_sizes(s: Seq<FlagDataV>) -> int
    decreases s.len(),
{
    if s.len() == 0 {
        0
    } else {
        (s[0].size + 1) + sum_entry_sizes(s.drop_first())
    }
}

/// The computed byte size of an extended header: the 5-byte prefix, the
/// flag bytes, and each block with its length byte.
pub open spec fn spec_bytes_size_v(x: ExtendedHeaderV) -> int {
    5 + x.number_of_flag_bytes + sum_entry_sizes(x.flag_data)
}

proof fn lemma_sum_push(t: Seq<FlagDataV>, e: FlagDataV)
    ensures
        sum_entry_sizes(t.push(e)) == sum_entry_sizes(t) + e.size + 1,
    decreases t.len(),
{
    if t.len() == 0 {
        assert(t.push(e)[0] == e);
        assert(t.push(e).drop_first() =~= Seq::<FlagDataV>::empty());
        assert(sum_entry_sizes(t.push(e).drop_first()) == 0);
    } else {
        assert(t.push(e)[0] == t[0]);
        assert(t.push(e).drop_first() =~= t.drop_first().push(e));
        lemma_sum_push(t.drop_first(), e);
    }
}

proof fn lemma_sum_sizes_bound(s: Seq<FlagDataV>)
    ensures
        0 <= sum_entry_sizes(s) <= 256 * s.len(),
    decreases s.len(),
{
    if s.len() > 0 {
        lemma_sum_sizes_bound(s.drop_first());
    }
}

/// A well-formed extended header's computed size stays small: at most the
/// 5-byte prefix, 255 flag bytes, and 8 * 255 blocks of at most 256 bytes.
pub proof fn lemma_flag_data_size_bound(x: ExtendedHeader)
    requires
        x.wf(),
    ensures
        0 <= spec_bytes_size_v(x@) <= 5 + 255 + 8 * 255 * 256,
{
    lemma_sum_sizes_bound(x@.flag_data);
}

/// The pairs (byte index, bit index) of a sequence of marked positions.
pub open spec fn pair_view(s: Seq<(u8, BitPosition)>) -> Seq<(int, int)> {
    s.map_values(|p: (u8, BitPosition)| (p.0 as int, p.1.index()))
}

/// Parsing consumes exactly the summed block sizes: the invariant that the
/// computed byte size equals what was read off the stream.
proof fn lemma_entries_consumed(s: Seq<u8>, pos: int, ps: Seq<(int, int)>)
    ensures
        match spec_parse_entries(s, pos, ps) {
            Ok((es, end)) => end == pos + sum_entry_sizes(es) && es.len() == ps.len(),
            Err(_) => true,
        },
    decreases ps.len(),
{
    if ps.len() == 0 {
    } else if pos + 1 > s.len() {
    } else {
        let sz = s[pos];
        lemma_entries_consumed(s, pos + 1 + sz, ps.drop_first());
        match spec_parse_entries(s, pos + 1 + sz, ps.drop_first()) {
            Ok((rest, end)) => {
                match spec_parse_entries(s, pos, ps) {
                    Ok((es, end2)) => {
                        assert(es.drop_first() =~= rest);
                    },
                    Err(_) => {},
                }
            },
            Err(_) => {},
        }
    }
}

proof fn lemma_byte_positions_len(byte: u8, byte_index: int, j: int)
    requires
        0 <= j <= 8,
    ensures
        spec_byte_positions(byte, byte_index, j).len() <= 8 - j,
    decreases 8 - j,
{
    if j < 8 {
        lemma_byte_positions_len(byte, byte_index, j + 1);
    }
}

proof fn lemma_positions_len(fb: Seq<u8>, i: int)
    requires
        0 <= i <= fb.len(),
    ensures
        spec_positions(fb, i).len() <= 8 * (fb.len() - i),
    decreases fb.len() - i,
{
    if i < fb.len() {
        lemma_byte_positions_len(fb[i], i, 0);
        lemma_positions_len(fb, i + 1);
    }
}

/// The restrictions byte, decoded field by field.
pub fn decode_restrictions(b: u8) -> (r: TagRestrictions)
    ensures
        r == spec_restrictions(b),
{
    let tag_size_restrictions = {
        let v = (b & 0xC0) >> 6;
        if v == 0 {
            TagSizeRestrictions::Max128Frames1MB
        } else if v == 1 {
            TagSizeRestrictions::Max64Frames128KB
        } else if v == 2 {
            TagSizeRestrictions::Max32Frames40KB
        } else {
            TagSizeRestrictions::Max32Frames4KB
        }
    };
    let text_encoding_restrictions = if (b & 0x20) >> 5 == 0 {
        TextEncodingRestrictions::NoRestrictions
    } else {
        TextEncodingRestrictions::ISO88591OrUTF8
    };
    let text_field_size_restrictions = {
        let v = (b & 0x18) >> 3;
        if v == 0 {
            TextFieldSizeRestrictions::NoRestrictions
        } else if v == 1 {
            TextFieldSizeRestrictions::Max1024Chars
        } else if v == 2 {
            TextFieldSizeRestrictions::Max128Chars
        } else {
            TextFieldSizeRestrictions::Max30Chars
        }
    };
    let image_encoding_restrictions = if (b & 0x04) >> 2 == 0 {
        ImageEncodingRestrictions::NoRestrictions
    } else {
        ImageEncodingRestrictions::PngOrJpeg
    };
    let image_size_restrictions = {
        let v = b & 0x03;
        if v == 0 {
            ImageSizeRestrictions::NoRestrictions
        } else if v == 1 {
            ImageSizeRestrictions::Max256x256Pixels
        } else if v == 2 {
            ImageSizeRestrictions::Max64x64Pixels
        } else {
            ImageSizeRestrictions::Exactly64x64Pixels
        }
    };
    TagRestrictions {
        tag_size_restrictions,
        text_encoding_restrictions,
        text_field_size_restrictions,
        image_encoding_restrictions,
        image_size_restrictions,
    }
}

impl ExtendedHeader {
    /// Shape a well-formed extended header keeps: the flag bytes match
    /// their declared count, and there are no more data blocks than flag
    /// bits.
    pub open spec fn wf(self) -> bool {
        &&& self.flag_bytes@.len() == self.number_of_flag_bytes
        &&& self.flag_data@.len() <= 8 * self.flag_bytes@.len()
    }

    /// The header's computed size in the stream: the 5-byte prefix, the
    /// flag bytes, and each data block with its length byte. Equals the
    /// bytes `read` consumed.
    pub fn bytes_size(&self) -> (r: u32)
        requires
            self.wf(),
        ensures
            r == spec_bytes_size_v(self@),
    {
        let minimum_bytes: u32 = 5;
        let mut flags_bytes: u32 = 0;
        let mut i: usize = 0;
        let ghost entries = self@.flag_data;
        proof {
            assert(entries.take(0) =~= Seq::<FlagDataV>::empty());
        }
        while i < self.flag_data.len()
            invariant
                self.wf(),
                entries == self@.flag_data,
                i <= self.flag_data@.len(),
                self.flag_data@.len() <= 8 * 255,
                flags_bytes == sum_entry_sizes(entries.take(i as int)),
                flags_bytes <= 256 * i,
            decreases self.flag_data@.len() - i,
        {
            proof {
                assert(entries.take(i + 1) =~= entries.take(i as int).push(entries[i as int]));
                lemma_sum_push(entries.take(i as int), entries[i as int]);
            }
            flags_bytes = flags_bytes + (self.flag_data[i].size as u32) + 1;
            i = i + 1;
        }
        proof {
            assert(entries.take(self.flag_data@.len() as int) =~= entries);
        }
        minimum_bytes + (self.number_of_flag_bytes as u32) + flags_bytes
    }

    /// Parses a whole extended header at `pos`; on success the new
    /// position is exactly `bytes_size` past `pos`.
    pub fn read(bytes: &[u8], pos: usize) -> (r: Result<
        (ExtendedHeader, usize),
        ExtendedHeaderReadError,
    >)
        requires
            pos <= bytes@.len(),
        ensures
            match r {
                Ok((xh, end)) => {
                    &&& spec_read_extended_header(bytes@, pos as int) == Ok::<
                        (ExtendedHeaderV, int),
                        ExtendedHeaderReadError,
                    >((xh@, end as int))
                    &&& xh.wf()
                    &&& end == pos + spec_bytes_size_v(xh@)
                    &&& pos <= end <= bytes@.len()
                },
                Err(e) => spec_read_extended_header(bytes@, pos as int) == Err::<
                    (ExtendedHeaderV, int),
                    ExtendedHeaderReadError,
                >(e),
            },
    {
        let n = bytes.len();
        if n - pos < 5 {
            return Err(ExtendedHeaderReadError::NotEnoughBytes);
        }
        let extended_header_size = read_syncsafe_integer(
            [bytes[pos], bytes[pos + 1], bytes[pos + 2], bytes[pos + 3]],
        );
        let number_of_flag_bytes = bytes[pos + 4];
        let nf = number_of_flag_bytes as usize;
        if n - (pos + 5) < nf {
            return Err(ExtendedHeaderReadError::NotEnoughBytes);
        }
        let flag_bytes = subvec(bytes, pos + 5, pos + 5 + nf);
        match ExtendedHeader::parse_flags_data(&flag_bytes, bytes, pos + 5 + nf) {
            Err(e) => Err(e),
            Ok((flag_data, end)) => {
                proof {
                    lemma_entries_consumed(
                        bytes@,
                        pos + 5 + nf,
                        spec_positions(flag_bytes@, 0),
                    );
                    lemma_positions_len(flag_bytes@, 0);
                }
                let xh = ExtendedHeader {
                    extended_header_size,
                    number_of_flag_bytes,
                    flag_bytes,
                    flag_data,
                };
                Ok((xh, end))
            },
        }
    }

    /// Walks the set bits of the flag bytes in byte-then-bit order and
    /// reads each flag's length-prefixed data block at `pos` on.
    pub fn parse_flags_data(flags_bytes: &Vec<u8>, bytes: &[u8], pos: usize) -> (r: Result<
        (Vec<ExtendedHeaderFlagData>, usize),
        ExtendedHeaderReadError,
    >)
        requires
            pos <= bytes@.len(),
            flags_bytes@.len() <= 255,
        ensures
            match r {
                Ok((v, end)) => {
                    &&& spec_parse_entries(
                        bytes@,
                        pos as int,
                        spec_positions(flags_bytes@, 0),
                    ) == Ok::<(Seq<FlagDataV>, int), ExtendedHeaderReadError>(
                        (v@.map_values(|d: ExtendedHeaderFlagData| d@), end as int),
                    )
                    &&& pos <= end <= bytes@.len()
                },
                Err(e) => spec_parse_entries(
                    bytes@,
                    pos as int,
                    spec_positions(flags_bytes@, 0),
                ) == Err::<(Seq<FlagDataV>, int), ExtendedHeaderReadError>(e),
            },
    {
        let mut set_positions: Vec<(u8, BitPosition)> = Vec::new();
        let nf = flags_bytes.len();
        let mut i: usize = 0;
        proof {
            assert(pair_view(set_positions@) + spec_positions(flags_bytes@, 0)
                =~= spec_positions(flags_bytes@, 0));
        }
        while i < nf
            invariant
                nf == flags_bytes@.len() <= 255,
                i <= nf,
                spec_positions(flags_bytes@, 0) == pair_view(set_positions@)
                    + spec_positions(flags_bytes@, i as int),
            decreases nf - i,
        {
            let flags_byte = flags_bytes[i];
            let mut j: usize = 0;
            proof {
                assert(spec_positions(flags_bytes@, i as int) =~= spec_byte_positions(
                    flags_bytes@[i as int],
                    i as int,
                    0,
                ) + spec_positions(flags_bytes@, i + 1));
            }
            while j < 8
                invariant
                    nf == flags_bytes@.len() <= 255,
                    i < nf,
                    j <= 8,
                    flags_byte == flags_bytes@[i as int],
                    spec_positions(flags_bytes@, 0) == pair_view(set_positions@)
                        + spec_byte_positions(flags_byte, i as int, j as int)
                        + spec_positions(flags_bytes@, i + 1),
                decreases 8 - j,
            {
                let bp = BitPosition::from_index(j);
                let ghost old_vec = set_positions@;
                if bp.is_set_on(flags_byte) {
                    set_positions.push((i as u8, bp));
                    proof {
                        assert(bp.index() == j as int);
                        assert(set_positions@ == old_vec.push((i as u8, bp)));
                        assert(pair_view(set_positions@) =~= pair_view(old_vec).push(
                            (i as int, j as int),
                        ));
                        assert(spec_byte_positions(flags_byte, i as int, j as int) =~= seq![
                            (i as int, j as int),
                        ] + spec_byte_positions(flags_byte, i as int, j + 1));
                        assert(pair_view(old_vec) + spec_byte_positions(
                            flags_byte,
                            i as int,
                            j as int,
                        ) + spec_positions(flags_bytes@, i + 1) =~= pair_view(set_positions@)
                            + spec_byte_positions(flags_byte, i as int, j + 1) + spec_positions(
                            flags_bytes@,
                            i + 1,
                        ));
                    }
                } else {
                    proof {
                        assert(spec_byte_positions(flags_byte, i as int, j as int)
                            =~= spec_byte_positions(flags_byte, i as int, j + 1));
                    }
                }
                j = j + 1;
            }
            proof {
                assert(spec_byte_positions(flags_byte, i as int, 8) =~= Seq::<(int, int)>::empty());
                assert(pair_view(set_positions@) + Seq::<(int, int)>::empty()
                    + spec_positions(flags_bytes@, i + 1) =~= pair_view(set_positions@)
                    + spec_positions(flags_bytes@, i + 1));
            }
            i = i + 1;
        }
        proof {
            assert(spec_positions(flags_bytes@, nf as int) =~= Seq::<(int, int)>::empty());
            assert(pair_view(set_positions@) + Seq::<(int, int)>::empty()
                =~= pair_view(set_positions@));
        }
        let r = ExtendedHeader::parse_entries_at(bytes, pos, &set_positions, 0);
        proof {
            assert(pair_view(set_positions@).skip(0) =~= pair_view(set_positions@));
        }
        r
    }

    /// Reads the data blocks for the set-bit positions from index `k` on.
    fn parse_entries_at(
        bytes: &[u8],
        pos: usize,
        set_positions: &Vec<(u8, BitPosition)>,
        k: usize,
    ) -> (r: Result<(Vec<ExtendedHeaderFlagData>, usize), ExtendedHeaderReadError>)
        requires
            pos <= bytes@.len(),
            k <= set_positions@.len(),
        ensures
            ({
                let ps = pair_view(set_positions@).skip(k as int);
                match r {
                    Ok((v, end)) => {
                        &&& spec_parse_entries(bytes@, pos as int, ps) == Ok::<
                            (Seq<FlagDataV>, int),
                            ExtendedHeaderReadError,
                        >((v@.map_values(|d: ExtendedHeaderFlagData| d@), end as int))
                        &&& pos <= end <= bytes@.len()
                    },
                    Err(e) => spec_parse_entries(bytes@, pos as int, ps) == Err::<
                        (Seq<FlagDataV>, int),
                        ExtendedHeaderReadError,
                    >(e),
                }
            }),
        decreases set_positions@.len() - k,
    {
        let ghost ps = pair_view(set_positions@).skip(k as int);
        let n = bytes.len();
        if k == set_positions.len() {
            let empty: Vec<ExtendedHeaderFlagData> = Vec::new();
            proof {
                assert(ps =~= Seq::<(int, int)>::empty());
                assert(empty@.map_values(|d: ExtendedHeaderFlagData| d@) =~= Seq::<
                    FlagDataV,
                >::empty());
            }
            return Ok((empty, pos));
        }
        proof {
            assert(ps[0] == pair_view(set_positions@)[k as int]);
        }
        if n - pos < 1 {
            return Err(ExtendedHeaderReadError::NotEnoughBytes);
        }
        let size = bytes[pos];
        let (byte_index, bit_position) = set_positions[k];
        if byte_index == 0 && bit_position == BitPosition::LSBPlus5 && size != 5 {
            return Err(ExtendedHeaderReadError::InvalidTagCRCSize(size));
        }
        if byte_index == 0 && bit_position == BitPosition::LSBPlus4 && size != 1 {
            return Err(ExtendedHeaderReadError::InvalidFlagTagRestrictionSize(size));
        }
        let sz = size as usize;
        if n - (pos + 1) < sz {
            return Err(ExtendedHeaderReadError::NotEnoughBytes);
        }
        let data = subvec(bytes, pos + 1, pos + 1 + sz);
        let typ = if byte_index == 0 && bit_position == BitPosition::LSBPlus6 {
            ExtendedHeaderFlagDataType::TagIsAnUpdate
        } else if byte_index == 0 && bit_position == BitPosition::LSBPlus5 {
            ExtendedHeaderFlagDataType::CrcDataPresent
        } else if byte_index == 0 && bit_position == BitPosition::LSBPlus4 {
            let data_byte = if data.len() > 0 {
                data[0]
            } else {
                0
            };
            ExtendedHeaderFlagDataType::TagRestrictions(decode_restrictions(data_byte))
        } else {
            ExtendedHeaderFlagDataType::Unknown(byte_index, bit_position)
        };
        let entry = ExtendedHeaderFlagData { size, data, typ };
        match ExtendedHeader::parse_entries_at(bytes, pos + 1 + sz, set_positions, k + 1) {
            Err(e) => {
                proof {
                    assert(ps.drop_first() =~= pair_view(set_positions@).skip(k + 1));
                }
                Err(e)
            },
            Ok((rest, end)) => {
                let mut result = rest;
                result.insert(0, entry);
                proof {
                    assert(ps.drop_first() =~= pair_view(set_positions@).skip(k + 1));
                    assert(result@.skip(1) =~= rest@);
                    assert(result@.map_values(|d: ExtendedHeaderFlagData| d@) =~= seq![entry@]
                        + rest@.map_values(|d: ExtendedHeaderFlagData| d@));
                }
                Ok((result, end))
            },
        }
    }
}

impl Default for ExtendedHeader {
    fn default() -> (r: Self)
        ensures
            r.extended_header_size == 5,
            r.number_of_flag_bytes == 0,
            r.flag_bytes@ =~= seq![0u8],
            r.flag_data@ =~= Seq::<ExtendedHeaderFlagData>::empty(),
    {
        ExtendedHeader {
            extended_header_size: 5,
            number_of_flag_bytes: 0,
            flag_data: Vec::new(),
            flag_bytes: vec![0u8],
        }
    }
}

} // verus!
