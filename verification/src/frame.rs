//! The generic frame envelope: a 4-byte identifier, a syncsafe payload
//! size, two flag bytes, and the payload of exactly that size.
use std::rc::Rc;
use vstd::prelude::*;

use crate::encoding::subvec;
use crate::frame_id::FrameID;
use crate::frame_type::FrameType;
use crate::frame_type::FrameTypeV;
use crate::utils::lemma_syncsafe4_fits;
use crate::utils::read_syncsafe_integer;
use crate::utils::syncsafe4;

verus! {

/// One frame of a tag: envelope fields plus the shared, read-only payload.
/// Classification of the payload is a separate step and starts out
/// `Unknown`.
#[derive(Debug)]
pub struct Frame {
    pub frame_type: FrameType,
    pub frame_id: FrameID,
    pub frame_size: u32,
    pub flags_byte: (u8, u8),
    pub data: Rc<Vec<u8>>,
}

/// Mathematical value of a `Frame`.
pub ghost struct FrameV {
    pub frame_type: FrameTypeV,
    pub frame_id: FrameID,
    pub frame_size: u32,
    pub flags_byte: (u8, u8),
    pub data: Seq<u8>,
}

impl View for Frame {
    type V = FrameV;

    open spec fn view(&self) -> FrameV {
        FrameV {
            frame_type: self.frame_type@,
            frame_id: self.frame_id,
            frame_size: self.frame_size,
            flags_byte: self.flags_byte,
            data: self.data@,
        }
    }
}

#[derive(PartialEq, Eq, Clone, Debug)]
pub enum FrameReadError {
    /// Kept from the header's error set; frame reading itself never
    /// produces it.
    ID3NotFound,
    /// The stream ended before the envelope or the declared payload could
    /// be fully read.
    NotEnoughBytes,
    /// The four candidate identifier bytes hold something besides capital
    /// letters and digits; the rejected candidate is carried along.
    InvalidFrameID(FrameID),
}

/// What the 4 bytes at `pos` yield as a frame identifier: too few bytes
/// fail, four bytes that break the identifier rule are handed back as the
/// distinguishable invalid-identifier case.
pub open spec fn spec_read_id(s: Seq<u8>, pos: int) -> Result<FrameID, FrameReadError> {
    if pos + 4 > s.len() {
        Err(FrameReadError::NotEnoughBytes)
    } else {
        let id = FrameID([s[pos], s[pos + 1], s[pos + 2], s[pos + 3]]);
        if id.spec_valid() {
            Ok(id)
        } else {
            Err(FrameReadError::InvalidFrameID(id))
        }
    }
}

/// What the bytes at `pos` parse to as a frame: the identifier (whose
/// invalidity is the distinguishable padding signal), then the syncsafe
/// payload size, two flag bytes, and exactly that many payload bytes.
pub open spec fn spec_read_frame(s: Seq<u8>, pos: int) -> Result<(FrameV, int), FrameReadError> {
    match spec_read_id(s, pos) {
        Err(e) => Err(e),
        Ok(id) => {
            if pos + 10 > s.len() {
                Err(FrameReadError::NotEnoughBytes)
            } else {
                let size = syncsafe4(s[pos + 4], s[pos + 5], s[pos + 6], s[pos + 7]);
                if pos + 10 + size > s.len() {
                    Err(FrameReadError::NotEnoughBytes)
                } else {
                    Ok(
                        (
                            FrameV {
                                frame_type: FrameTypeV::Unknown,
                                frame_id: id,
                                frame_size: size,
                                flags_byte: (s[pos + 8], s[pos + 9]),
                                data: s.subrange(pos + 10, pos + 10 + size),
                            },
                            pos + 10 + size,
                        ),
                    )
                }
            }
        },
    }
}

impl Frame {
    /// The frame's size in the stream: its payload plus the 10-byte
    /// envelope.
    pub fn bytes_size(&self) -> (r: u32)
        requires
            self.frame_size + 10 <= u32::MAX,
        ensures
            r == self.frame_size + 10,
    {
        self.frame_size + 10
    }

    /// Reads the four candidate identifier bytes at `pos`.
    pub fn read_id(bytes: &[u8], pos: usize) -> (r: Result<FrameID, FrameReadError>)
        requires
            pos <= bytes@.len(),
        ensures
            r == spec_read_id(bytes@, pos as int),
    {
        let n = bytes.len();
        if n - pos < 4 {
            return Err(FrameReadError::NotEnoughBytes);
        }
        let frame_id = [bytes[pos], bytes[pos + 1], bytes[pos + 2], bytes[pos + 3]];
        match FrameID::try_from(frame_id) {
            Ok(id) => Ok(id),
            Err(id) => Err(FrameReadError::InvalidFrameID(id)),
        }
    }

    /// Parses one whole frame at `pos`; on success the new position is just
    /// past the payload, `bytes_size` away from `pos`.
    pub fn read(bytes: &[u8], pos: usize) -> (r: Result<(Frame, usize), FrameReadError>)
        requires
            pos <= bytes@.len(),
        ensures
            match r {
                Ok((f, end)) => {
                    &&& spec_read_frame(bytes@, pos as int) == Ok::<(FrameV, int), FrameReadError>(
                        (f@, end as int),
                    )
                    &&& end == pos + 10 + f.frame_size
                    &&& end <= bytes@.len()
                    &&& f.frame_size < 0x20000000
                    &&& f.frame_type == FrameType::Unknown
                },
                Err(e) => spec_read_frame(bytes@, pos as int) == Err::<
                    (FrameV, int),
                    FrameReadError,
                >(e),
            },
    {
        let n = bytes.len();
        let frame_id = match Frame::read_id(bytes, pos) {
            Ok(id) => id,
            Err(e) => {
                return Err(e);
            },
        };
        if n - pos < 10 {
            return Err(FrameReadError::NotEnoughBytes);
        }
        let frame_size = read_syncsafe_integer(
            [bytes[pos + 4], bytes[pos + 5], bytes[pos + 6], bytes[pos + 7]],
        );
        let flags_byte = (bytes[pos + 8], bytes[pos + 9]);
        proof {
            lemma_syncsafe4_fits(
                bytes@[pos + 4],
                bytes@[pos + 5],
                bytes@[pos + 6],
                bytes@[pos + 7],
            );
        }
        let payload_len = frame_size as usize;
        if n - (pos + 10) < payload_len {
            return Err(FrameReadError::NotEnoughBytes);
        }
        let data = subvec(bytes, pos + 10, pos + 10 + payload_len);
        let end = pos + 10 + payload_len;
        Ok(
            (
                Frame {
                    frame_type: FrameType::Unknown,
                    frame_id,
                    frame_size,
                    flags_byte,
                    data: Rc::new(data),
                },
                end,
            ),
        )
    }
}

/// Per-frame status flags; their meaning is not modelled yet.
#[derive(PartialEq, Eq, Structural, Clone, Debug, Default)]
pub struct FrameFlags {}

} // verus!
