//! Classification of a frame's raw payload by its identifier: unique file
//! identifiers, text-information frames with their decoded strings,
//! experimental frames, and an unknown fallback.
use vstd::prelude::*;

use crate::encoding::spec_bytes_length_of;
use crate::encoding::spec_decode;
use crate::encoding::spec_extract_encoding;
use crate::encoding::spec_separator_of;
use crate::encoding::spec_split;
use crate::encoding::subvec;
use crate::encoding::Encoding;
use crate::encoding::EncodingError;
use crate::find_from;
use crate::frame::Frame;
use crate::frame_id::FrameID;
use crate::lemma_find_from_complete;
use crate::lemma_find_from_none;
use crate::matches_at;
use crate::utils::latin1_seq;
use crate::utils::latin1_to_string;

verus! {

#[derive(PartialEq, Eq, Structural, Clone, Debug)]
pub enum TextInformationError {
    /// A declared case for a payload that ends before its text data;
    /// classification as implemented never produces it.
    MissingData,
    /// The payload's leading encoding bytes were malformed.
    EncodingError(EncodingError),
}

/// A decoded text-information payload: the encoding and the ordered
/// terminator-separated strings.
#[derive(PartialEq, Clone, Debug)]
pub struct TextInformation {
    pub encoding: Encoding,
    pub strings: Vec<String>,
}

/// Mathematical value of a `TextInformation`.
pub ghost struct TextInformationV {
    pub encoding: Encoding,
    pub strings: Seq<Seq<char>>,
}

impl View for TextInformation {
    type V = TextInformationV;

    open spec fn view(&self) -> TextInformationV {
        TextInformationV {
            encoding: self.encoding,
            strings: self.strings@.map_values(|s: String| s@),
        }
    }
}

/// What a frame's payload means, as decided by its identifier.
#[derive(PartialEq, Debug, Default)]
pub enum FrameType {
    #[default]
    Unknown,
    UniqueFileIdentifier { owner_identifier: String, identifier: Vec<u8> },
    TextInformation(Result<TextInformation, TextInformationError>),
    Experimental,
}

/// Mathematical value of a `FrameType`.
pub ghost enum FrameTypeV {
    Unknown,
    UniqueFileIdentifier { owner_identifier: Seq<char>, identifier: Seq<u8> },
    TextInformation(Result<TextInformationV, TextInformationError>),
    Experimental,
}

impl View for FrameType {
    type V = FrameTypeV;

    open spec fn view(&self) -> FrameTypeV {
        match self {
            FrameType::Unknown => FrameTypeV::Unknown,
            FrameType::UniqueFileIdentifier { owner_identifier, identifier } => {
                FrameTypeV::UniqueFileIdentifier {
                    owner_identifier: owner_identifier@,
                    identifier: identifier@,
                }
            },
            FrameType::TextInformation(res) => FrameTypeV::TextInformation(
                match res {
                    Ok(t) => Ok(t@),
                    Err(e) => Err(*e),
                },
            ),
            FrameType::Experimental => FrameTypeV::Experimental,
        }
    }
}

/// Index of the first zero byte of `s`, or its length when none occurs:
/// where a unique-file-identifier payload is cut.
pub open spec fn spec_zero_cut(s: Seq<u8>) -> int {
    match find_from(s, seq![0u8], 0) {
        Some(i) => i,
        None => s.len() as int,
    }
}

/// A text-information payload: its leading bytes pick the encoding — a
/// failure there is kept as a value — and the rest splits on the encoding's
/// terminator into the decoded strings.
pub open spec fn spec_text_information(data: Seq<u8>) -> Result<
    TextInformationV,
    TextInformationError,
> {
    match spec_extract_encoding(data) {
        Err(e) => Err(TextInformationError::EncodingError(e)),
        Ok(enc) => Ok(
            TextInformationV {
                encoding: enc,
                strings: spec_split(
                    data.skip(spec_bytes_length_of(enc)),
                    spec_separator_of(enc),
                ).map_values(|p: Seq<u8>| spec_decode(enc, p)),
            },
        ),
    }
}

/// What a frame classifies to. `UFID` payloads cut at the first zero byte:
/// a Latin-1 owner before it, opaque identifier bytes after it. Identifiers
/// starting with `X`, `Y` or `Z` are experimental. The remaining
/// identifiers starting with `T` carry text information. Everything else
/// stays unknown.
pub open spec fn spec_classify(id: FrameID, data: Seq<u8>) -> FrameTypeV {
    if id.0[0] == 85 && id.0[1] == 70 && id.0[2] == 73 && id.0[3] == 68 {
        FrameTypeV::UniqueFileIdentifier {
            owner_identifier: latin1_seq(data.take(spec_zero_cut(data))),
            identifier: if spec_zero_cut(data) < data.len() {
                data.skip(spec_zero_cut(data) + 1)
            } else {
                Seq::empty()
            },
        }
    } else if id.0[0] == 88 || id.0[0] == 89 || id.0[0] == 90 {
        FrameTypeV::Experimental
    } else if id.0[0] == 84 {
        FrameTypeV::TextInformation(spec_text_information(data))
    } else {
        FrameTypeV::Unknown
    }
}

/// Index of the first zero byte, or the length when there is none.
fn find_first_zero(bytes: &[u8]) -> (r: usize)
    ensures
        r == spec_zero_cut(bytes@),
        r <= bytes@.len(),
{
    let n = bytes.len();
    let mut i: usize = 0;
    while i < n
        invariant
            n == bytes@.len(),
            i <= n,
            forall|k: int| 0 <= k < i ==> bytes@[k] != 0,
        decreases n - i,
    {
        if bytes[i] == 0 {
            proof {
                assert(matches_at(bytes@, seq![0u8], i as int));
                assert forall|k: int| 0 <= k < i implies !matches_at(
                    bytes@,
                    seq![0u8],
                    k,
                ) by {
                    if matches_at(bytes@, seq![0u8], k) {
                        assert(bytes@[k + 0] == seq![0u8][0]);
                    }
                }
                lemma_find_from_complete(bytes@, seq![0u8], 0, i as int);
            }
            return i;
        }
        i = i + 1;
    }
    proof {
        assert forall|k: int| 0 <= k implies !matches_at(bytes@, seq![0u8], k) by {
            if matches_at(bytes@, seq![0u8], k) {
                assert(bytes@[k + 0] == seq![0u8][0]);
            }
        }
        lemma_find_from_none(bytes@, seq![0u8], 0);
    }
    n
}

impl FrameType {
    /// Classifies a fully read frame by its identifier and payload.
    pub fn from(value: Frame) -> (r: FrameType)
        ensures
            r@ == spec_classify(value.frame_id, value.data@),
    {
        let data = value.data;
        let id = value.frame_id.bytes();
        if id[0] == 85 && id[1] == 70 && id[2] == 73 && id[3] == 68 {
            let position = find_first_zero(data.as_slice());
            let owner_prefix = subvec(data.as_slice(), 0, position);
            let owner_identifier = latin1_to_string(owner_prefix.as_slice());
            let identifier: Vec<u8> = if position < data.len() {
                let r = subvec(data.as_slice(), position + 1, data.len());
                proof {
                    assert(r@ =~= data@.skip(spec_zero_cut(data@) + 1));
                }
                r
            } else {
                Vec::new()
            };
            proof {
                assert(owner_prefix@ =~= data@.take(spec_zero_cut(data@)));
            }
            FrameType::UniqueFileIdentifier { owner_identifier, identifier }
        } else if id[0] == 88 || id[0] == 89 || id[0] == 90 {
            FrameType::Experimental
        } else if id[0] == 84 {
            match Encoding::extract_from_vec(&data) {
                Err(err) => FrameType::TextInformation(
                    Err(TextInformationError::EncodingError(err)),
                ),
                Ok(encoding) => {
                    let bl = encoding.bytes_length();
                    let body = subvec(data.as_slice(), bl, data.len());
                    proof {
                        assert(body@ =~= data@.skip(spec_bytes_length_of(encoding)));
                    }
                    let splits = encoding.split_bytes_by_string_separator(body.as_slice());
                    let ghost piece_views = splits@.map_values(|v: Vec<u8>| v@);
                    let mut strings: Vec<String> = Vec::new();
                    let mut i: usize = 0;
                    while i < splits.len()
                        invariant
                            piece_views == splits@.map_values(|v: Vec<u8>| v@),
                            i <= splits@.len(),
                            strings@.len() == i,
                            forall|j: int|
                                0 <= j < i ==> strings@[j]@ == spec_decode(
                                    encoding,
                                    piece_views[j],
                                ),
                        decreases splits@.len() - i,
                    {
                        let s = encoding.make_string(splits[i].as_slice());
                        proof {
                            assert(piece_views[i as int] == splits@[i as int]@);
                        }
                        strings.push(s);
                        i = i + 1;
                    }
                    proof {
                        assert(strings@.map_values(|s: String| s@) =~= piece_views.map_values(
                            |p: Seq<u8>| spec_decode(encoding, p),
                        ));
                    }
                    FrameType::TextInformation(Ok(TextInformation { encoding, strings }))
                },
            }
        } else {
            FrameType::Unknown
        }
    }
}

} // verus!
