//! Text encodings of frame payloads: selector parsing with byte-order-mark
//! validation, the per-encoding string terminator, terminator splitting, and
//! decoding of raw bytes into strings.
use vstd::prelude::*;

use crate::find_from;
use crate::find_substring_from;
use crate::lemma_find_from_props;
use crate::matches_at;
use crate::utils::latin1_seq;
use crate::utils::latin1_to_string;

verus! {

/// Order of the two bytes of a 16-bit code unit in the payload.
#[derive(PartialEq, Eq, Structural, Clone, Debug)]
pub enum ByteOrder {
    BigEndian,
    LittleEndian,
}

/// A text payload's character encoding, as named by its selector byte.
#[derive(PartialEq, Eq, Structural, Clone, Debug)]
pub enum Encoding {
    Latin1,
    UTF16(ByteOrder),
    UTF16BE,
    UTF8,
}

#[derive(PartialEq, Eq, Structural, Clone, Debug)]
pub enum EncodingError {
    /// The selector byte is not one of 0 to 3.
    UnknownEncoding(u8),
    /// The payload ended before the selector byte.
    MissingEncoding,
    /// Selector 1 without the two byte-order-mark bytes after it.
    MissingBOM,
    /// Selector 1 with two bytes that are neither byte-order-mark.
    InvalidBOM(u8, u8),
}

/// What the leading bytes of a text payload select: selector 0 is Latin-1;
/// selector 1 is UTF-16 and must be followed by a byte-order-mark; selector 2
/// is UTF-16 big-endian without a mark; selector 3 is UTF-8.
pub open spec fn spec_extract_encoding(s: Seq<u8>) -> Result<Encoding, EncodingError> {
    if s.len() == 0 {
        Err(EncodingError::MissingEncoding)
    } else if s[0] == 0 {
        Ok(Encoding::Latin1)
    } else if s[0] == 1 {
        if s.len() < 3 {
            Err(EncodingError::MissingBOM)
        } else if s[1] == 0xFE && s[2] == 0xFF {
            Ok(Encoding::UTF16(ByteOrder::BigEndian))
        } else if s[1] == 0xFF && s[2] == 0xFE {
            Ok(Encoding::UTF16(ByteOrder::LittleEndian))
        } else {
            Err(EncodingError::InvalidBOM(s[1], s[2]))
        }
    } else if s[0] == 2 {
        Ok(Encoding::UTF16BE)
    } else if s[0] == 3 {
        Ok(Encoding::UTF8)
    } else {
        Err(EncodingError::UnknownEncoding(s[0]))
    }
}

/// The in-payload string terminator: one zero byte for the single-byte
/// encodings, two for either UTF-16 form.
pub open spec fn spec_separator_of(e: Encoding) -> Seq<u8> {
    match e {
        Encoding::Latin1 => seq![0u8],
        Encoding::UTF16(_) => seq![0u8, 0u8],
        Encoding::UTF16BE => seq![0u8, 0u8],
        Encoding::UTF8 => seq![0u8],
    }
}

/// Payload bytes consumed by the encoding itself before string data begins:
/// the selector byte, plus the two byte-order-mark bytes for UTF-16.
pub open spec fn spec_bytes_length_of(e: Encoding) -> int {
    match e {
        Encoding::Latin1 => 1,
        Encoding::UTF16(_) => 3,
        Encoding::UTF16BE => 1,
        Encoding::UTF8 => 1,
    }
}

/// The pieces of `s` from `pos` on, cut at each occurrence of `sep`; the
/// remainder after the last separator is dropped.
pub open spec fn split_from(s: Seq<u8>, sep: Seq<u8>, pos: int) -> Seq<Seq<u8>>
    decreases s.len() - pos
        when 0 <= pos <= s.len() && sep.len() > 0
        via split_from_decreases
{
    match find_from(s, sep, pos) {
        None => Seq::empty(),
        Some(i) => seq![s.subrange(pos, i)] + split_from(s, sep, i + sep.len()),
    }
}

#[via_fn]
proof fn split_from_decreases(s: Seq<u8>, sep: Seq<u8>, pos: int) {
    lemma_find_from_props(s, sep, pos);
}

/// The pieces of `s` cut at each occurrence of `sep`.
pub open spec fn spec_split(s: Seq<u8>, sep: Seq<u8>) -> Seq<Seq<u8>> {
    split_from(s, sep, 0)
}

/// The 16-bit code units read off consecutive byte pairs; a trailing odd
/// byte carries no unit.
pub open spec fn u16_units(s: Seq<u8>, big_endian: bool) -> Seq<u16>
    decreases s.len(),
{
    if s.len() < 2 {
        Seq::empty()
    } else {
        seq![u16_unit(s[0], s[1], big_endian)] + u16_units(s.skip(2), big_endian)
    }
}

/// One 16-bit code unit from a byte pair: big-endian reads the first byte
/// as the high byte, little-endian the second.
pub open spec fn u16_unit(b0: u8, b1: u8, big_endian: bool) -> u16 {
    if big_endian {
        ((b0 as u16) << 8) | (b1 as u16)
    } else {
        ((b1 as u16) << 8) | (b0 as u16)
    }
}

/// The characters of a string decoded from `s` under encoding `e`: Latin-1
/// maps each byte to its code point; the UTF-16 forms decode consecutive
/// byte pairs, lossily; UTF-8 decodes lossily.
pub open spec fn spec_decode(e: Encoding, s: Seq<u8>) -> Seq<char> {
    match e {
        Encoding::Latin1 => latin1_seq(s),
        Encoding::UTF16(bo) => utf16_lossy_of(u16_units(s, bo == ByteOrder::BigEndian)),
        Encoding::UTF16BE => utf16_lossy_of(u16_units(s, true)),
        Encoding::UTF8 => utf8_lossy_of(s),
    }
}

pub uninterp spec fn utf16_lossy_of(units: Seq<u16>) -> Seq<char>;

pub uninterp spec fn utf8_lossy_of(bytes: Seq<u8>) -> Seq<char>;

/// Relies on String::from_utf16_lossy: decodes the 16-bit units, replacing
/// invalid data with the replacement character; the result depends on the
/// units alone.
#[verifier::external_body]
fn decode_utf16_lossy(units: &Vec<u16>) -> (r: String)
    ensures
        r@ == utf16_lossy_of(units@),
{
    String::from_utf16_lossy(units.as_slice())
}

/// Relies on String::from_utf8_lossy: decodes the bytes as UTF-8, replacing
/// invalid sequences with the replacement character; the result depends on
/// the bytes alone.
#[verifier::external_body]
fn decode_utf8_lossy(bytes: &[u8]) -> (r: String)
    ensures
        r@ == utf8_lossy_of(bytes@),
{
    String::from_utf8_lossy(bytes).into_owned()
}

/// Copy of the byte range `[start, end)` of `bytes`.
pub fn subvec(bytes: &[u8], start: usize, end: usize) -> (r: Vec<u8>)
    requires
        start <= end <= bytes@.len(),
    ensures
        r@ == bytes@.subrange(start as int, end as int),
{
    let mut r: Vec<u8> = Vec::new();
    let mut i: usize = start;
    while i < end
        invariant
            start <= i <= end <= bytes@.len(),
            r@ =~= bytes@.subrange(start as int, i as int),
        decreases end - i,
    {
        r.push(bytes[i]);
        i = i + 1;
    }
    proof {
        assert(r@ =~= bytes@.subrange(start as int, end as int));
    }
    r
}

impl Encoding {
    /// Reads the selector byte, and for UTF-16 the byte-order-mark after it.
    pub fn extract_from_vec(vector: &Vec<u8>) -> (r: Result<Self, EncodingError>)
        ensures
            r == spec_extract_encoding(vector@),
    {
        if vector.len() == 0 {
            return Err(EncodingError::MissingEncoding);
        }
        let encoding_byte = vector[0];
        match encoding_byte {
            0 => Ok(Encoding::Latin1),
            1 => {
                if vector.len() < 3 {
                    return Err(EncodingError::MissingBOM);
                }
                let a = vector[1];
                let b = vector[2];
                if a == 0xFE && b == 0xFF {
                    Ok(Encoding::UTF16(ByteOrder::BigEndian))
                } else if a == 0xFF && b == 0xFE {
                    Ok(Encoding::UTF16(ByteOrder::LittleEndian))
                } else {
                    Err(EncodingError::InvalidBOM(a, b))
                }
            },
            2 => Ok(Encoding::UTF16BE),
            3 => Ok(Encoding::UTF8),
            _ => Err(EncodingError::UnknownEncoding(encoding_byte)),
        }
    }

    pub fn string_separator(&self) -> (r: Vec<u8>)
        ensures
            r@ == spec_separator_of(*self),
    {
        let r = match self {
            Encoding::Latin1 => vec![0u8],
            Encoding::UTF16(_) => vec![0u8, 0u8],
            Encoding::UTF16BE => vec![0u8, 0u8],
            Encoding::UTF8 => vec![0u8],
        };
        proof {
            assert(r@ =~= spec_separator_of(*self));
        }
        r
    }

    /// How many leading payload bytes the encoding itself consumes.
    pub fn bytes_length(&self) -> (r: usize)
        ensures
            r == spec_bytes_length_of(*self),
    {
        match self {
            Encoding::Latin1 => 1,
            Encoding::UTF16(_) => 3,
            Encoding::UTF16BE => 1,
            Encoding::UTF8 => 1,
        }
    }

    /// Cuts `bytes` at each occurrence of the encoding's terminator; the
    /// remainder after the last terminator is dropped.
    pub fn split_bytes_by_string_separator(&self, bytes: &[u8]) -> (r: Vec<Vec<u8>>)
        ensures
            r@.map_values(|v: Vec<u8>| v@) == spec_split(bytes@, spec_separator_of(*self)),
    {
        let n = bytes.len();
        let separator = self.string_separator();
        let ghost sepv = spec_separator_of(*self);
        let mut vector: Vec<Vec<u8>> = Vec::new();
        let mut pos: usize = 0;
        let mut next = find_substring_from(bytes, separator.as_slice(), pos);
        proof {
            assert(Seq::<Seq<u8>>::empty() + split_from(bytes@, sepv, 0) =~= split_from(
                bytes@,
                sepv,
                0,
            ));
            assert(vector@.map_values(|v: Vec<u8>| v@) =~= Seq::<Seq<u8>>::empty());
        }
        while next.is_some()
            invariant
                n == bytes@.len(),
                separator@ == sepv,
                1 <= sepv.len(),
                pos <= bytes@.len(),
                match next {
                    Some(i) => find_from(bytes@, sepv, pos as int) == Some(i as int),
                    None => find_from(bytes@, sepv, pos as int) is None,
                },
                spec_split(bytes@, sepv) == vector@.map_values(|v: Vec<u8>| v@) + split_from(
                    bytes@,
                    sepv,
                    pos as int,
                ),
            decreases bytes@.len() - pos,
        {
            let index = next.unwrap();
            proof {
                lemma_find_from_props(bytes@, sepv, pos as int);
            }
            let ghost old_pos = pos as int;
            let ghost old_map = vector@.map_values(|v: Vec<u8>| v@);
            let piece = subvec(bytes, pos, index);
            vector.push(piece);
            pos = index + separator.len();
            proof {
                assert(split_from(bytes@, sepv, old_pos) =~= seq![
                    bytes@.subrange(old_pos, index as int),
                ] + split_from(bytes@, sepv, pos as int));
                assert(vector@.map_values(|v: Vec<u8>| v@) =~= old_map.push(piece@));
                assert(old_map + split_from(bytes@, sepv, old_pos) =~= vector@.map_values(
                    |v: Vec<u8>| v@,
                ) + split_from(bytes@, sepv, pos as int));
            }
            next = find_substring_from(bytes, separator.as_slice(), pos);
        }
        proof {
            assert(split_from(bytes@, sepv, pos as int) =~= Seq::<Seq<u8>>::empty());
            assert(vector@.map_values(|v: Vec<u8>| v@) + Seq::<Seq<u8>>::empty()
                =~= vector@.map_values(|v: Vec<u8>| v@));
        }
        vector
    }

    /// Decodes raw payload bytes into a string per the encoding's rules;
    /// no input fails, invalid data decodes with replacement.
    pub fn make_string(&self, bytes: &[u8]) -> (r: String)
        ensures
            r@ == spec_decode(*self, bytes@),
    {
        match self {
            Encoding::Latin1 => latin1_to_string(bytes),
            Encoding::UTF16(byte_order) => {
                let big_endian = match byte_order {
                    ByteOrder::BigEndian => true,
                    ByteOrder::LittleEndian => false,
                };
                let units = collect_u16_units(bytes, big_endian);
                decode_utf16_lossy(&units)
            },
            Encoding::UTF16BE => {
                let units = collect_u16_units(bytes, true);
                decode_utf16_lossy(&units)
            },
            Encoding::UTF8 => decode_utf8_lossy(bytes),
        }
    }
}

/// Splitting on a terminator undoes terminating concatenation: for any
/// encoding, a buffer laid out as `a`, terminator, `b`, terminator splits
/// into exactly the pieces `a` and `b`, provided neither piece holds a zero
/// byte (every terminator is made of zero bytes, so a zero byte inside a
/// piece would move the cut).
pub proof fn lemma_split_round_trip(e: Encoding, a: Seq<u8>, b: Seq<u8>)
    requires
        forall|k: int| 0 <= k < a.len() ==> a[k] != 0,
        forall|k: int| 0 <= k < b.len() ==> b[k] != 0,
    ensures
        spec_split(a + spec_separator_of(e) + b + spec_separator_of(e), spec_separator_of(e))
            == seq![a, b],
{
    lemma_split_concat_zero_sep(a, b, spec_separator_of(e));
}

/// A buffer in which the terminator occurs nowhere splits into no pieces at
/// all: the whole buffer is an unterminated remainder, and remainders are
/// dropped.
pub proof fn lemma_split_without_separator(e: Encoding, s: Seq<u8>)
    requires
        find_from(s, spec_separator_of(e), 0) is None,
    ensures
        spec_split(s, spec_separator_of(e)) == Seq::<Seq<u8>>::empty(),
{
}

proof fn lemma_split_concat_zero_sep(a: Seq<u8>, b: Seq<u8>, sep: Seq<u8>)
    requires
        1 <= sep.len(),
        forall|k: int| 0 <= k < sep.len() ==> sep[k] == 0,
        forall|k: int| 0 <= k < a.len() ==> a[k] != 0,
        forall|k: int| 0 <= k < b.len() ==> b[k] != 0,
    ensures
        spec_split(a + sep + b + sep, sep) == seq![a, b],
{
    let s = a + sep + b + sep;
    let la = a.len() as int;
    let ls = sep.len() as int;
    let lb = b.len() as int;
    assert forall|j: int| 0 <= j < ls implies #[trigger] s[la + j] == 0 by {
        assert(s[la + j] == sep[j]);
    }
    assert(matches_at(s, sep, la));
    assert forall|k: int| 0 <= k < la implies !matches_at(s, sep, k) by {
        assert(s[k] == a[k]);
        assert(s[k + 0] != sep[0]);
    }
    crate::lemma_find_from_complete(s, sep, 0, la);
    let p1 = la + ls;
    assert forall|j: int| 0 <= j < ls implies #[trigger] s[p1 + lb + j] == 0 by {
        assert(s[p1 + lb + j] == sep[j]);
    }
    assert(matches_at(s, sep, p1 + lb));
    assert forall|k: int| p1 <= k < p1 + lb implies !matches_at(s, sep, k) by {
        assert(s[k] == b[k - p1]);
        assert(s[k + 0] != sep[0]);
    }
    crate::lemma_find_from_complete(s, sep, p1, p1 + lb);
    let p2 = p1 + lb + ls;
    assert(p2 == s.len());
    assert(find_from(s, sep, p2) is None);
    assert(split_from(s, sep, p2) =~= Seq::<Seq<u8>>::empty());
    assert(split_from(s, sep, p1) =~= seq![s.subrange(p1, p1 + lb)] + split_from(s, sep, p2));
    assert(split_from(s, sep, 0) =~= seq![s.subrange(0, la)] + split_from(s, sep, p1));
    assert(s.subrange(0, la) =~= a);
    assert(s.subrange(p1, p1 + lb) =~= b);
    assert(spec_split(s, sep) =~= seq![a, b]);
}

/// The 16-bit code units of `bytes`, read off consecutive byte pairs.
fn collect_u16_units(bytes: &[u8], big_endian: bool) -> (r: Vec<u16>)
    ensures
        r@ == u16_units(bytes@, big_endian),
{
    let n = bytes.len();
    let mut units: Vec<u16> = Vec::new();
    let mut i: usize = 0;
    proof {
        assert(bytes@.skip(0) =~= bytes@);
        assert(units@ + u16_units(bytes@, big_endian) =~= u16_units(bytes@, big_endian));
    }
    while i < n && i + 1 < n
        invariant
            n == bytes@.len(),
            i <= n,
            u16_units(bytes@, big_endian) == units@ + u16_units(bytes@.skip(i as int), big_endian),
        decreases n - i,
    {
        let b0 = bytes[i];
        let b1 = bytes[i + 1];
        let unit: u16 = if big_endian {
            ((b0 as u16) << 8) | (b1 as u16)
        } else {
            ((b1 as u16) << 8) | (b0 as u16)
        };
        proof {
            assert(bytes@.skip(i as int).skip(2) =~= bytes@.skip(i + 2));
            assert(bytes@.skip(i as int)[0] == bytes@[i as int]);
            assert(bytes@.skip(i as int)[1] == bytes@[i + 1]);
            assert(units@.push(unit) + u16_units(bytes@.skip(i + 2), big_endian) =~= units@
                + u16_units(bytes@.skip(i as int), big_endian));
        }
        units.push(unit);
        i = i + 2;
    }
    proof {
        assert(u16_units(bytes@.skip(i as int), big_endian) =~= Seq::<u16>::empty());
        assert(units@ + Seq::<u16>::empty() =~= units@);
    }
    units
}

} // verus!
