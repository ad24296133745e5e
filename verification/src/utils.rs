//! Syncsafe integer decoding, single-bit masks over a byte, and Latin-1
//! conversions between byte buffers and strings.
use vstd::prelude::*;

verus! {

/// Value of a 4-byte syncsafe integer: 7 significant bits per byte, most
/// significant byte first. Bytes whose top bit is set are tolerated; their
/// high bit then overlaps the next byte's contribution, as the bitwise or
/// states.
pub open spec fn syncsafe4(b0: u8, b1: u8, b2: u8, b3: u8) -> u32 {
    (b3 as u32) | ((b2 as u32) << 7) | ((b1 as u32) << 14) | ((b0 as u32) << 21)
}

/// Value of a 5-byte syncsafe integer.
pub open spec fn syncsafe5(b0: u8, b1: u8, b2: u8, b3: u8, b4: u8) -> u64 {
    (b4 as u64) | ((b3 as u64) << 7) | ((b2 as u64) << 14) | ((b1 as u64) << 21) | ((b0
        as u64) << 28)
}

pub fn read_syncsafe_integer(bytes: [u8; 4]) -> (r: u32)
    ensures
        r == syncsafe4(bytes[0], bytes[1], bytes[2], bytes[3]),
{
    (bytes[3] as u32) | ((bytes[2] as u32) << 7) | ((bytes[1] as u32) << 14) | ((bytes[0]
        as u32) << 21)
}

pub fn read_syncsafe_integer_5bytes(bytes: [u8; 5]) -> (r: u64)
    ensures
        r == syncsafe5(bytes[0], bytes[1], bytes[2], bytes[3], bytes[4]),
{
    (bytes[4] as u64) | ((bytes[3] as u64) << 7) | ((bytes[2] as u64) << 14) | ((bytes[1]
        as u64) << 21) | ((bytes[0] as u64) << 28)
}

/// A 4-byte syncsafe integer never reaches 2^29, whatever the input bytes.
pub proof fn lemma_syncsafe4_fits(b0: u8, b1: u8, b2: u8, b3: u8)
    ensures
        syncsafe4(b0, b1, b2, b3) < 0x20000000,
{
    assert((b3 as u32) | ((b2 as u32) << 7) | ((b1 as u32) << 14) | ((b0 as u32) << 21)
        < 0x20000000) by (bit_vector);
}

/// With every byte's top bit clear, as the format demands, a 4-byte
/// syncsafe integer stays below 2^28; and when the three leading bytes are
/// zero, the value is the last byte itself.
pub proof fn lemma_syncsafe4_bound(b0: u8, b1: u8, b2: u8, b3: u8)
    requires
        b0 < 128,
        b1 < 128,
        b2 < 128,
        b3 < 128,
    ensures
        syncsafe4(b0, b1, b2, b3) < 0x10000000,
        b0 == 0 && b1 == 0 && b2 == 0 ==> syncsafe4(b0, b1, b2, b3) == b3,
{
    assert(b0 < 128 && b1 < 128 && b2 < 128 && b3 < 128 ==> ((b3 as u32) | ((b2
        as u32) << 7) | ((b1 as u32) << 14) | ((b0 as u32) << 21)) < 0x10000000)
        by (bit_vector);
    assert(b0 == 0 && b1 == 0 && b2 == 0 && b3 < 128 ==> ((b3 as u32) | ((b2
        as u32) << 7) | ((b1 as u32) << 14) | ((b0 as u32) << 21)) == b3) by (bit_vector);
}

/// The single-bit mask with bit `j` set, for `j` in 0 to 7.
pub open spec fn bit_mask(j: int) -> u8 {
    if j == 0 {
        0x01
    } else if j == 1 {
        0x02
    } else if j == 2 {
        0x04
    } else if j == 3 {
        0x08
    } else if j == 4 {
        0x10
    } else if j == 5 {
        0x20
    } else if j == 6 {
        0x40
    } else {
        0x80
    }
}

/// The eight positions of a bit within a byte, least significant first.
#[derive(PartialEq, Eq, Structural, Clone, Copy, Debug)]
pub enum BitPosition {
    LSB,
    LSBPlus1,
    LSBPlus2,
    LSBPlus3,
    LSBPlus4,
    LSBPlus5,
    LSBPlus6,
    LSBPlus7,
}

impl BitPosition {
    /// Index of the position: 0 for the least significant bit up to 7.
    pub open spec fn index(self) -> int {
        match self {
            BitPosition::LSB => 0,
            BitPosition::LSBPlus1 => 1,
            BitPosition::LSBPlus2 => 2,
            BitPosition::LSBPlus3 => 3,
            BitPosition::LSBPlus4 => 4,
            BitPosition::LSBPlus5 => 5,
            BitPosition::LSBPlus6 => 6,
            BitPosition::LSBPlus7 => 7,
        }
    }

    /// The single-bit mask of the position.
    pub open spec fn mask(self) -> u8 {
        bit_mask(self.index())
    }

    /// The position whose index is `j`, for `j` in 0 to 7.
    pub open spec fn position_at(j: int) -> BitPosition {
        if j == 0 {
            BitPosition::LSB
        } else if j == 1 {
            BitPosition::LSBPlus1
        } else if j == 2 {
            BitPosition::LSBPlus2
        } else if j == 3 {
            BitPosition::LSBPlus3
        } else if j == 4 {
            BitPosition::LSBPlus4
        } else if j == 5 {
            BitPosition::LSBPlus5
        } else if j == 6 {
            BitPosition::LSBPlus6
        } else {
            BitPosition::LSBPlus7
        }
    }

    /// The eight positions in ascending order.
    pub open spec fn all_positions() -> Seq<BitPosition> {
        seq![
            BitPosition::LSB,
            BitPosition::LSBPlus1,
            BitPosition::LSBPlus2,
            BitPosition::LSBPlus3,
            BitPosition::LSBPlus4,
            BitPosition::LSBPlus5,
            BitPosition::LSBPlus6,
            BitPosition::LSBPlus7,
        ]
    }

    /// The positions in the order they are enumerated when walking a flags
    /// byte: least significant bit first.
    pub fn iter_right() -> (r: Vec<BitPosition>)
        ensures
            r@ == BitPosition::all_positions(),
    {
        let r = vec![
            BitPosition::LSB,
            BitPosition::LSBPlus1,
            BitPosition::LSBPlus2,
            BitPosition::LSBPlus3,
            BitPosition::LSBPlus4,
            BitPosition::LSBPlus5,
            BitPosition::LSBPlus6,
            BitPosition::LSBPlus7,
        ];
        proof {
            assert(r@ =~= BitPosition::all_positions());
        }
        r
    }

    /// The position at a given index, inverse of `index`.
    pub fn from_index(i: usize) -> (r: BitPosition)
        requires
            i < 8,
        ensures
            r == BitPosition::position_at(i as int),
            r.index() == i,
    {
        match i {
            0 => BitPosition::LSB,
            1 => BitPosition::LSBPlus1,
            2 => BitPosition::LSBPlus2,
            3 => BitPosition::LSBPlus3,
            4 => BitPosition::LSBPlus4,
            5 => BitPosition::LSBPlus5,
            6 => BitPosition::LSBPlus6,
            _ => BitPosition::LSBPlus7,
        }
    }

    pub fn is_set_on(&self, num: u8) -> (r: bool)
        ensures
            r == ((num & self.mask()) != 0),
    {
        num & self.binary_representation() != 0
    }

    pub fn binary_representation(&self) -> (r: u8)
        ensures
            r == self.mask(),
    {
        match self {
            BitPosition::LSB => 0x01,
            BitPosition::LSBPlus1 => 0x02,
            BitPosition::LSBPlus2 => 0x04,
            BitPosition::LSBPlus3 => 0x08,
            BitPosition::LSBPlus4 => 0x10,
            BitPosition::LSBPlus5 => 0x20,
            BitPosition::LSBPlus6 => 0x40,
            BitPosition::LSBPlus7 => 0x80,
        }
    }

    pub fn rotate_right(&self) -> (r: Self)
        ensures
            r.index() == (if self.index() == 0 {
                7int
            } else {
                self.index() - 1
            }),
    {
        match self {
            BitPosition::LSB => BitPosition::LSBPlus7,
            BitPosition::LSBPlus1 => BitPosition::LSB,
            BitPosition::LSBPlus2 => BitPosition::LSBPlus1,
            BitPosition::LSBPlus3 => BitPosition::LSBPlus2,
            BitPosition::LSBPlus4 => BitPosition::LSBPlus3,
            BitPosition::LSBPlus5 => BitPosition::LSBPlus4,
            BitPosition::LSBPlus6 => BitPosition::LSBPlus5,
            BitPosition::LSBPlus7 => BitPosition::LSBPlus6,
        }
    }

    pub fn rotate_left(&self) -> (r: Self)
        ensures
            r.index() == (if self.index() == 7 {
                0int
            } else {
                self.index() + 1
            }),
    {
        match self {
            BitPosition::LSB => BitPosition::LSBPlus1,
            BitPosition::LSBPlus1 => BitPosition::LSBPlus2,
            BitPosition::LSBPlus2 => BitPosition::LSBPlus3,
            BitPosition::LSBPlus3 => BitPosition::LSBPlus4,
            BitPosition::LSBPlus4 => BitPosition::LSBPlus5,
            BitPosition::LSBPlus5 => BitPosition::LSBPlus6,
            BitPosition::LSBPlus6 => BitPosition::LSBPlus7,
            BitPosition::LSBPlus7 => BitPosition::LSB,
        }
    }
}

/// Latin-1 reading of a byte sequence: each byte is its own code point.
pub open spec fn latin1_seq(s: Seq<u8>) -> Seq<char> {
    s.map_values(|b: u8| b as char)
}

/// Relies on String::push: appends the given character at the end.
pub assume_specification[ String::push ](s: &mut String, ch: char)
    ensures
        final(s)@ == old(s)@.push(ch),
;

pub fn latin1_to_string(latin1: &[u8]) -> (r: String)
    ensures
        r@ == latin1_seq(latin1@),
{
    let mut r = String::new();
    let mut i: usize = 0;
    while i < latin1.len()
        invariant
            i <= latin1@.len(),
            r@ == latin1_seq(latin1@.take(i as int)),
        decreases latin1@.len() - i,
    {
        r.push(latin1[i] as char);
        i = i + 1;
        proof {
            assert(latin1_seq(latin1@.take(i as int)) =~= latin1_seq(
                latin1@.take(i - 1),
            ).push(latin1@[i - 1] as char));
        }
    }
    proof {
        assert(latin1@.take(latin1@.len() as int) =~= latin1@);
    }
    r
}

pub fn string_to_latin1(string: &str) -> (r: Vec<u8>)
    ensures
        r@ == string@.map_values(|c: char| c as u8),
{
    let ghost target = string@.map_values(|c: char| c as u8);
    let mut r: Vec<u8> = Vec::new();
    let n = string.unicode_len();
    let mut i: usize = 0;
    while i < n
        invariant
            n == string@.len(),
            i <= n,
            r@ =~= string@.map_values(|c: char| c as u8).take(i as int),
        decreases n - i,
    {
        let c = string.get_char(i);
        r.push(#[verifier::truncate] (c as u8));
        i = i + 1;
    }
    proof {
        assert(string@.map_values(|c: char| c as u8).take(n as int) =~= string@.map_values(
            |c: char| c as u8,
        ));
    }
    r
}

} // verus!
