//! The fixed 10-byte tag header: magic, version, flags byte, and the
//! syncsafe total tag size.
use vstd::prelude::*;

use crate::utils::read_syncsafe_integer;
use crate::utils::syncsafe4;

verus! {

/// The four flags a tag header can carry, each a single bit of the flags
/// byte.
#[derive(PartialEq, Eq, Structural, Clone, Debug)]
pub enum HeaderFlagType {
    Unsynchronisation,
    ExtendedHeader,
    ExperimentalIndicator,
    FooterPresent,
}

impl HeaderFlagType {
    /// The flag's bit mask within the header's flags byte.
    pub open spec fn mask(self) -> u8 {
        match self {
            HeaderFlagType::Unsynchronisation => 0x80,
            HeaderFlagType::ExtendedHeader => 0x40,
            HeaderFlagType::ExperimentalIndicator => 0x20,
            HeaderFlagType::FooterPresent => 0x10,
        }
    }

    pub fn binary_representation(&self) -> (r: u8)
        ensures
            r == self.mask(),
    {
        match self {
            HeaderFlagType::Unsynchronisation => 0x80,
            HeaderFlagType::ExtendedHeader => 0x40,
            HeaderFlagType::ExperimentalIndicator => 0x20,
            HeaderFlagType::FooterPresent => 0x10,
        }
    }
}

/// The tag's fixed header, read from its first 10 bytes.
#[derive(PartialEq, Eq, Structural, Clone, Debug)]
pub struct Header {
    pub version: u16,
    pub flags_byte: u8,
    pub tag_size: u32,
}

#[derive(PartialEq, Eq, Structural, Clone, Debug)]
pub enum HeaderReadError {
    /// The first three bytes are not the literal sequence `I`, `D`, `3`.
    ID3NotFound,
    /// The stream ended before the 10 header bytes could be read.
    NotEnoughBytes,
}

/// What the 10 bytes at `pos` parse to: the magic must read `ID3`; the
/// version takes byte 4 as its high and byte 3 as its low half; byte 5 is
/// the flags byte verbatim; bytes 6 to 9 are the syncsafe tag size, which
/// counts the bytes after the header itself.
pub open spec fn spec_read_header(s: Seq<u8>, pos: int) -> Result<Header, HeaderReadError> {
    if pos + 10 > s.len() {
        Err(HeaderReadError::NotEnoughBytes)
    } else if !(s[pos] == 73 && s[pos + 1] == 68 && s[pos + 2] == 51) {
        Err(HeaderReadError::ID3NotFound)
    } else {
        Ok(
            Header {
                version: (((s[pos + 4] as u16) << 8) | (s[pos + 3] as u16)) as u16,
                flags_byte: s[pos + 5],
                tag_size: syncsafe4(s[pos + 6], s[pos + 7], s[pos + 8], s[pos + 9]),
            },
        )
    }
}

impl Header {
    /// The header's own size in the stream: always 10 bytes.
    pub fn bytes_size(&self) -> (r: u32)
        ensures
            r == 10,
    {
        10
    }

    /// The declared size of what follows the header: extended header,
    /// frames and padding, excluding the header's own 10 bytes.
    pub fn tag_size(&self) -> (r: u32)
        ensures
            r == self.tag_size,
    {
        self.tag_size
    }

    pub fn is_flag_set(&self, flag_type: &HeaderFlagType) -> (r: bool)
        ensures
            r == ((self.flags_byte & flag_type.mask()) != 0),
    {
        self.flags_byte & flag_type.binary_representation() != 0
    }

    /// Parses the 10 header bytes at `pos`.
    pub fn read(bytes: &[u8], pos: usize) -> (r: Result<Header, HeaderReadError>)
        requires
            pos <= bytes@.len(),
        ensures
            r == spec_read_header(bytes@, pos as int),
    {
        let n = bytes.len();
        if n - pos < 10 {
            return Err(HeaderReadError::NotEnoughBytes);
        }
        if !(bytes[pos] == 73 && bytes[pos + 1] == 68 && bytes[pos + 2] == 51) {
            return Err(HeaderReadError::ID3NotFound);
        }
        let version = ((bytes[pos + 4] as u16) << 8) | (bytes[pos + 3] as u16);
        let tag_size = read_syncsafe_integer(
            [bytes[pos + 6], bytes[pos + 7], bytes[pos + 8], bytes[pos + 9]],
        );
        Ok(Header { version, flags_byte: bytes[pos + 5], tag_size })
    }
}

impl Default for Header {
    fn default() -> (r: Self)
        ensures
            r == (Header { version: 4u16, flags_byte: 0u8, tag_size: 10u32 }),
    {
        Header { version: 4, flags_byte: 0, tag_size: 10 }
    }
}

} // verus!
