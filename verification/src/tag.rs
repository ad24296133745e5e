//! The tag orchestrator: header, optional extended header, then the frame
//! loop bounded by the declared tag size and stopped early by padding.
use vstd::prelude::*;

use crate::extended_header::spec_bytes_size_v;
use crate::extended_header::spec_read_extended_header;
use crate::extended_header::ExtendedHeader;
use crate::extended_header::ExtendedHeaderReadError;
use crate::extended_header::ExtendedHeaderV;
use crate::frame::spec_read_frame;
use crate::frame::Frame;
use crate::frame::FrameReadError;
use crate::frame::FrameV;
use crate::header::spec_read_header;
use crate::header::Header;
use crate::header::HeaderFlagType;
use crate::header::HeaderReadError;
use crate::utils::lemma_syncsafe4_fits;

verus! {

/// The full parsed tag. The footer is a recognized extension point that is
/// not decoded yet: a tag that announces one is refused, so the field is
/// always absent here.
#[derive(Debug)]
pub struct Tag {
    pub header: Header,
    pub extended_header: Option<ExtendedHeader>,
    pub frames: Vec<Frame>,
    pub footer: Option<Box<Tag>>,
}

#[derive(PartialEq, Eq, Clone, Debug)]
pub enum TagReadError {
    /// The fixed header failed to parse; nothing else was attempted.
    HeaderError(HeaderReadError),
    /// The extended header failed to parse.
    ExtendedHeaderError(ExtendedHeaderReadError),
    /// A frame envelope failed to parse; carries the 1-based number of the
    /// frame being read.
    FrameReadError(u32, FrameReadError),
    /// The header announces a footer, which is not decoded yet.
    FooterNotSupported,
}

impl From<HeaderReadError> for TagReadError {
    fn from(value: HeaderReadError) -> (r: Self) {
        TagReadError::HeaderError(value)
    }
}

impl vstd::std_specs::convert::FromSpecImpl<HeaderReadError> for TagReadError {
    open spec fn obeys_from_spec() -> bool {
        true
    }

    open spec fn from_spec(value: HeaderReadError) -> Self {
        TagReadError::HeaderError(value)
    }
}

impl From<ExtendedHeaderReadError> for TagReadError {
    fn from(value: ExtendedHeaderReadError) -> (r: Self) {
        TagReadError::ExtendedHeaderError(value)
    }
}

impl vstd::std_specs::convert::FromSpecImpl<ExtendedHeaderReadError> for TagReadError {
    open spec fn obeys_from_spec() -> bool {
        true
    }

    open spec fn from_spec(value: ExtendedHeaderReadError) -> Self {
        TagReadError::ExtendedHeaderError(value)
    }
}

/// Mathematical value of a `Tag`; the footer is always absent and carries
/// no value of its own.
pub ghost struct TagV {
    pub header: Header,
    pub extended_header: Option<ExtendedHeaderV>,
    pub frames: Seq<FrameV>,
}

/// Mathematical value of an assembled `Tag`.
pub open spec fn tag_view(t: Tag) -> TagV {
    TagV {
        header: t.header,
        extended_header: match t.extended_header {
            Some(x) => Some(x@),
            None => None,
        },
        frames: t.frames@.map_values(|f: Frame| f@),
    }
}

/// The frames read at `pos` while fewer than `remaining` bytes of the
/// declared tag size are left unconsumed: the loop stops as soon as the
/// running total reaches the declared size, or earlier on an invalid frame
/// identifier, which marks padding; any other frame error aborts, numbered
/// with the 1-based index `idx` of the frame being read.
pub open spec fn spec_read_frames(s: Seq<u8>, pos: int, remaining: int, idx: int) -> Result<
    (Seq<FrameV>, int),
    TagReadError,
>
    decreases remaining,
    when remaining >= 0
{
    if remaining <= 0 {
        Ok((Seq::empty(), pos))
    } else {
        match spec_read_frame(s, pos) {
            Err(FrameReadError::InvalidFrameID(_)) => Ok((Seq::empty(), pos)),
            Err(e) => Err(TagReadError::FrameReadError(idx as u32, e)),
            Ok((f, p2)) => {
                let consumed = f.frame_size + 10;
                let rem2 = if remaining - consumed >= 0 {
                    remaining - consumed
                } else {
                    0
                };
                match spec_read_frames(s, p2, rem2, idx + 1) {
                    Err(e) => Err(e),
                    Ok((fs, end)) => Ok((seq![f] + fs, end)),
                }
            },
        }
    }
}

/// What a whole byte stream parses to as a tag: the header first — its
/// errors abort everything — then a refusal of the undecoded footer, then
/// the optional extended header, then the frames, with the running byte
/// total (the header's 10 bytes included) held under the declared tag
/// size.
pub open spec fn spec_read_tag(s: Seq<u8>) -> Result<TagV, TagReadError> {
    match spec_read_header(s, 0) {
        Err(e) => Err(TagReadError::HeaderError(e)),
        Ok(h) => {
            if h.flags_byte & 0x10 != 0 {
                Err(TagReadError::FooterNotSupported)
            } else if h.flags_byte & 0x40 != 0 {
                match spec_read_extended_header(s, 10) {
                    Err(e) => Err(TagReadError::ExtendedHeaderError(e)),
                    Ok((xv, p)) => {
                        let consumed = 10 + spec_bytes_size_v(xv);
                        let remaining = if h.tag_size - consumed >= 0 {
                            h.tag_size - consumed
                        } else {
                            0
                        };
                        match spec_read_frames(s, p, remaining, 1) {
                            Err(e) => Err(e),
                            Ok((fs, _end)) => Ok(
                                TagV { header: h, extended_header: Some(xv), frames: fs },
                            ),
                        }
                    },
                }
            } else {
                let remaining = if h.tag_size - 10 >= 0 {
                    h.tag_size - 10
                } else {
                    0
                };
                match spec_read_frames(s, 10, remaining, 1) {
                    Err(e) => Err(e),
                    Ok((fs, _end)) => Ok(TagV { header: h, extended_header: None, frames: fs }),
                }
            }
        },
    }
}

impl Tag {
    /// Parses a whole tag from the start of `bytes`.
    pub fn read(bytes: &[u8]) -> (r: Result<Tag, TagReadError>)
        ensures
            match r {
                Ok(t) => {
                    &&& spec_read_tag(bytes@) == Ok::<TagV, TagReadError>(tag_view(t))
                    &&& t.footer is None
                },
                Err(e) => spec_read_tag(bytes@) == Err::<TagV, TagReadError>(e),
            },
    {
        let n = bytes.len();
        let header = match Header::read(bytes, 0) {
            Ok(h) => h,
            Err(e) => {
                return Err(TagReadError::from(e));
            },
        };
        proof {
            lemma_syncsafe4_fits(bytes@[6], bytes@[7], bytes@[8], bytes@[9]);
        }
        if header.is_flag_set(&HeaderFlagType::FooterPresent) {
            return Err(TagReadError::FooterNotSupported);
        }
        let mut extended_header: Option<ExtendedHeader> = None;
        let mut pos: usize = 10;
        let mut bytes_read: u32 = 10;
        if header.is_flag_set(&HeaderFlagType::ExtendedHeader) {
            match ExtendedHeader::read(bytes, 10) {
                Err(e) => {
                    return Err(TagReadError::from(e));
                },
                Ok((xh, p)) => {
                    proof {
                        crate::extended_header::lemma_flag_data_size_bound(xh);
                    }
                    bytes_read = 10 + xh.bytes_size();
                    pos = p;
                    extended_header = Some(xh);
                },
            }
        }
        let tag_size = header.tag_size();
        let ghost s = bytes@;
        let ghost rem0 = if tag_size - bytes_read >= 0 {
            tag_size - bytes_read
        } else {
            0
        };
        let ghost total = spec_read_frames(s, pos as int, rem0, 1);
        let mut frames: Vec<Frame> = Vec::new();
        proof {
            assert(frames@.map_values(|f: Frame| f@) =~= Seq::<FrameV>::empty());
        }
        while bytes_read < tag_size
            invariant
                n == s.len(),
                s == bytes@,
                pos <= n,
                tag_size < 0x20000000,
                tag_size == header.tag_size,
                10 * frames@.len() <= bytes_read,
                ({
                    match total {
                        Err(e) => spec_read_tag(s) == Err::<TagV, TagReadError>(e),
                        Ok((fs, _e)) => spec_read_tag(s) == Ok::<TagV, TagReadError>(
                            TagV {
                                header: header,
                                extended_header: match extended_header {
                                    Some(x) => Some(x@),
                                    None => None,
                                },
                                frames: fs,
                            },
                        ),
                    }
                }),
                ({
                    let rem = if tag_size - bytes_read >= 0 {
                        tag_size - bytes_read
                    } else {
                        0
                    };
                    let idx = frames@.len() as int + 1;
                    match spec_read_frames(s, pos as int, rem, idx) {
                        Ok((fs, e)) => total == Ok::<(Seq<FrameV>, int), TagReadError>(
                            (frames@.map_values(|f: Frame| f@) + fs, e),
                        ),
                        Err(e) => total == Err::<(Seq<FrameV>, int), TagReadError>(e),
                    }
                }),
            decreases (if bytes_read <= tag_size {
                (tag_size - bytes_read) as int
            } else {
                0
            }),
        {
            let ghost rem_old = (tag_size - bytes_read) as int;
            let ghost idx_old = frames@.len() as int + 1;
            let ghost views_old = frames@.map_values(|f: Frame| f@);
            match Frame::read(bytes, pos) {
                Err(FrameReadError::InvalidFrameID(id)) => {
                    proof {
                        assert(spec_read_frames(s, pos as int, rem_old, idx_old)
                            == Ok::<(Seq<FrameV>, int), TagReadError>(
                            (Seq::empty(), pos as int),
                        ));
                        assert(views_old + Seq::<FrameV>::empty() =~= views_old);
                    }
                    return Ok(Tag { header, extended_header, frames, footer: None });
                },
                Err(frame_read_error) => {
                    proof {
                        assert(spec_read_frames(s, pos as int, rem_old, idx_old)
                            == Err::<(Seq<FrameV>, int), TagReadError>(
                            TagReadError::FrameReadError(idx_old as u32, frame_read_error),
                        ));
                        assert(idx_old as u32 == frames@.len() as u32 + 1);
                    }
                    return Err(
                        TagReadError::FrameReadError(frames.len() as u32 + 1, frame_read_error),
                    );
                },
                Ok((new_frame, p2)) => {
                    bytes_read = bytes_read + new_frame.bytes_size();
                    pos = p2;
                    frames.push(new_frame);
                    proof {
                        let rem_new = if tag_size - bytes_read >= 0 {
                            (tag_size - bytes_read) as int
                        } else {
                            0
                        };
                        assert(rem_new == (if rem_old - (new_frame.frame_size + 10) >= 0 {
                            rem_old - (new_frame.frame_size + 10)
                        } else {
                            0
                        }));
                        match spec_read_frames(s, pos as int, rem_new, idx_old + 1) {
                            Ok((fs, e)) => {
                                assert(spec_read_frames(s, p2 as int, rem_new, idx_old + 1)
                                    == Ok::<(Seq<FrameV>, int), TagReadError>((fs, e)));
                                assert(frames@.map_values(|f: Frame| f@) =~= views_old.push(
                                    new_frame@,
                                ));
                                assert(views_old + (seq![new_frame@] + fs)
                                    =~= frames@.map_values(|f: Frame| f@) + fs);
                            },
                            Err(_) => {},
                        }
                    }
                },
            }
        }
        proof {
            assert(spec_read_frames(s, pos as int, 0, frames@.len() as int + 1) == Ok::<
                (Seq<FrameV>, int),
                TagReadError,
            >((Seq::empty(), pos as int)));
            assert(frames@.map_values(|f: Frame| f@) + Seq::<FrameV>::empty()
                =~= frames@.map_values(|f: Frame| f@));
        }
        Ok(Tag { header, extended_header, frames, footer: None })
    }
}

} // verus!
